//! Geometry handles and vectors of them.
use crate::geometry::{Geom, GeometryView};
use crate::node::class_view;
use vstd::prelude::*;

verus! {

/// A geometry with the class stack of its handle. The first class names the
/// kind of the geometry, in lower case.
#[derive(Clone, Debug, PartialEq)]
pub struct Handle<T> {
    pub class: Vec<String>,
    pub geom: Geom<T>,
}

/// An ordered vector of geometry handles, some of which may be missing, with
/// the class stack of the whole.
#[derive(Clone, Debug, PartialEq)]
pub struct GeomVector<T> {
    pub class: Vec<String>,
    pub items: Vec<Option<Handle<T>>>,
}

pub ghost struct HandleView<T> {
    pub class: Seq<Seq<char>>,
    pub geom: GeometryView<T>,
}

pub ghost struct GeomVectorView<T> {
    pub class: Seq<Seq<char>>,
    pub items: Seq<Option<HandleView<T>>>,
}

impl<T> View for Handle<T> {
    type V = HandleView<T>;

    open spec fn view(&self) -> HandleView<T> {
        HandleView { class: class_view(self.class), geom: self.geom@ }
    }
}

/// The views of the handles of a vector, position by position.
pub open spec fn handles_view<T>(items: Seq<Option<Handle<T>>>) -> Seq<Option<HandleView<T>>> {
    items.map_values(
        |h: Option<Handle<T>>|
            match h {
                Some(h) => Some(h@),
                None => None,
            },
    )
}

impl<T> View for GeomVector<T> {
    type V = GeomVectorView<T>;

    open spec fn view(&self) -> GeomVectorView<T> {
        GeomVectorView { class: class_view(self.class), items: handles_view(self.items@) }
    }
}

} // verus!
