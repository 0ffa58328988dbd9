//! External tagged nodes: the simple-feature side of the conversions.
use vstd::prelude::*;

verus! {

/// A numeric buffer with the extents it declares and its class.
///
/// A matrix of `r` rows and two columns declares `dim == [r, 2]` and holds
/// `2 * r` values in column-major order: the x of every row, then the y of
/// every row. `dim` is empty where the node declares no extents.
#[derive(Clone, Debug, PartialEq)]
pub struct MatrixNode<T> {
    pub class: Vec<String>,
    pub dim: Vec<usize>,
    pub data: Vec<T>,
}

/// An ordered list of nodes with its class.
#[derive(Debug, PartialEq)]
pub struct ListNode<T> {
    pub class: Vec<String>,
    pub items: Vec<Node<T>>,
}

/// A node of the external form. `class` is empty where the node has no class.
#[derive(Debug, PartialEq)]
pub enum Node<T> {
    /// No geometry. Distinct from an empty list and from a matrix of no rows.
    Null,
    Matrix(MatrixNode<T>),
    List(ListNode<T>),
}

pub ghost struct MatrixView<T> {
    pub class: Seq<Seq<char>>,
    pub dim: Seq<usize>,
    pub data: Seq<T>,
}

pub ghost struct ListView<T> {
    pub class: Seq<Seq<char>>,
    pub items: Seq<NodeView<T>>,
}

pub ghost enum NodeView<T> {
    Null,
    Matrix(MatrixView<T>),
    List(ListView<T>),
}

/// The class attribute as a sequence of strings.
pub open spec fn class_view(class: Vec<String>) -> Seq<Seq<char>> {
    class@.map_values(|s: String| s@)
}

/// The view of a node, through every level of lists.
pub open spec fn node_view<T>(n: Node<T>) -> NodeView<T>
    decreases n, 1int,
{
    match n {
        Node::Null => NodeView::Null,
        Node::Matrix(m) => NodeView::Matrix(m@),
        Node::List(l) => NodeView::List(
            ListView { class: class_view(l.class), items: items_view(l.items@) },
        ),
    }
}

/// The views of the nodes of a list, in order.
pub open spec fn items_view<T>(items: Seq<Node<T>>) -> Seq<NodeView<T>>
    decreases items, 0int,
{
    Seq::new(
        items.len(),
        |i: int|
            if 0 <= i < items.len() {
                node_view(items[i])
            } else {
                NodeView::Null
            },
    )
}

impl<T> View for MatrixNode<T> {
    type V = MatrixView<T>;

    open spec fn view(&self) -> MatrixView<T> {
        MatrixView { class: class_view(self.class), dim: self.dim@, data: self.data@ }
    }
}

impl<T> View for ListNode<T> {
    type V = ListView<T>;

    open spec fn view(&self) -> ListView<T> {
        ListView { class: class_view(self.class), items: items_view(self.items@) }
    }
}

impl<T> View for Node<T> {
    type V = NodeView<T>;

    open spec fn view(&self) -> NodeView<T> {
        node_view(*self)
    }
}

impl<T> NodeView<T> {
    /// Which of the three forms the node has.
    pub open spec fn kind(self) -> crate::error::NodeKind {
        match self {
            NodeView::Null => crate::error::NodeKind::Null,
            NodeView::Matrix(_) => crate::error::NodeKind::Matrix,
            NodeView::List(_) => crate::error::NodeKind::List,
        }
    }

    /// The class of the node; a null node has none.
    pub open spec fn class(self) -> Seq<Seq<char>> {
        match self {
            NodeView::Null => Seq::empty(),
            NodeView::Matrix(m) => m.class,
            NodeView::List(l) => l.class,
        }
    }
}

impl<T> Node<T> {
    /// Which of the three forms the node has.
    pub fn kind(&self) -> (k: crate::error::NodeKind)
        ensures
            k == self@.kind(),
    {
        match self {
            Node::Null => crate::error::NodeKind::Null,
            Node::Matrix(_) => crate::error::NodeKind::Matrix,
            Node::List(_) => crate::error::NodeKind::List,
        }
    }
}

/// The view of a list's item is the item of the list's view.
pub proof fn lemma_items_view<T>(items: Seq<Node<T>>)
    ensures
        items_view(items).len() == items.len(),
        forall|i: int| 0 <= i < items.len() ==> #[trigger] items_view(items)[i] == items[i]@,
{
}

} // verus!
