//! The tag vocabulary: the six kinds of geometry that have a simple-feature
//! form, the exact strings that name them, and the class stacks built of them.
use crate::node::class_view;
use crate::text::str_eq;
use vstd::prelude::*;

verus! {

/// A kind of geometry that has a simple-feature form.
#[derive(Clone, Copy, Debug, PartialEq, Eq)]
pub enum Kind {
    Point,
    MultiPoint,
    LineString,
    MultiLineString,
    Polygon,
    MultiPolygon,
}

impl Kind {
    /// The tag of the kind on a simple-feature node: upper case.
    pub open spec fn spec_tag(self) -> Seq<char> {
        match self {
            Kind::Point => "POINT"@,
            Kind::MultiPoint => "MULTIPOINT"@,
            Kind::LineString => "LINESTRING"@,
            Kind::MultiLineString => "MULTILINESTRING"@,
            Kind::Polygon => "POLYGON"@,
            Kind::MultiPolygon => "MULTIPOLYGON"@,
        }
    }

    /// The name of the kind on a geometry handle: lower case.
    pub open spec fn spec_name(self) -> Seq<char> {
        match self {
            Kind::Point => "point"@,
            Kind::MultiPoint => "multipoint"@,
            Kind::LineString => "linestring"@,
            Kind::MultiLineString => "multilinestring"@,
            Kind::Polygon => "polygon"@,
            Kind::MultiPolygon => "multipolygon"@,
        }
    }

    /// The kind that a tag names, if it names one. Tags are case-sensitive.
    pub open spec fn spec_from_tag(tag: Seq<char>) -> Option<Kind> {
        if tag == "POINT"@ {
            Some(Kind::Point)
        } else if tag == "MULTIPOINT"@ {
            Some(Kind::MultiPoint)
        } else if tag == "LINESTRING"@ {
            Some(Kind::LineString)
        } else if tag == "MULTILINESTRING"@ {
            Some(Kind::MultiLineString)
        } else if tag == "POLYGON"@ {
            Some(Kind::Polygon)
        } else if tag == "MULTIPOLYGON"@ {
            Some(Kind::MultiPolygon)
        } else {
            None
        }
    }

    /// The kind that a class stack declares: its second entry decides, and the
    /// first, which tells the coordinate dimensions, is not read. A stack of fewer
    /// than two entries declares none.
    pub open spec fn spec_of_class(class: Seq<Seq<char>>) -> Option<Kind> {
        if class.len() >= 2 {
            Kind::spec_from_tag(class[1])
        } else {
            None
        }
    }

    /// The class stack of a simple-feature node of this kind.
    pub open spec fn spec_sfg_class(self) -> Seq<Seq<char>> {
        seq!["XY"@, self.spec_tag(), "sfg"@]
    }

    /// The class stack of a geometry handle of this kind.
    pub open spec fn spec_handle_class(self) -> Seq<Seq<char>> {
        seq![self.spec_name(), "Geom"@]
    }

    pub fn tag(self) -> (t: &'static str)
        ensures
            t@ == self.spec_tag(),
    {
        match self {
            Kind::Point => "POINT",
            Kind::MultiPoint => "MULTIPOINT",
            Kind::LineString => "LINESTRING",
            Kind::MultiLineString => "MULTILINESTRING",
            Kind::Polygon => "POLYGON",
            Kind::MultiPolygon => "MULTIPOLYGON",
        }
    }

    pub fn name(self) -> (t: &'static str)
        ensures
            t@ == self.spec_name(),
    {
        match self {
            Kind::Point => "point",
            Kind::MultiPoint => "multipoint",
            Kind::LineString => "linestring",
            Kind::MultiLineString => "multilinestring",
            Kind::Polygon => "polygon",
            Kind::MultiPolygon => "multipolygon",
        }
    }

    pub fn from_tag(tag: &str) -> (k: Option<Kind>)
        ensures
            k == Kind::spec_from_tag(tag@),
    {
        if str_eq(tag, "POINT") {
            Some(Kind::Point)
        } else if str_eq(tag, "MULTIPOINT") {
            Some(Kind::MultiPoint)
        } else if str_eq(tag, "LINESTRING") {
            Some(Kind::LineString)
        } else if str_eq(tag, "MULTILINESTRING") {
            Some(Kind::MultiLineString)
        } else if str_eq(tag, "POLYGON") {
            Some(Kind::Polygon)
        } else if str_eq(tag, "MULTIPOLYGON") {
            Some(Kind::MultiPolygon)
        } else {
            None
        }
    }

    pub fn of_class(class: &Vec<String>) -> (k: Option<Kind>)
        ensures
            k == Kind::spec_of_class(class_view(*class)),
    {
        if class.len() >= 2 {
            Kind::from_tag(class[1].as_str())
        } else {
            None
        }
    }

    pub fn sfg_class(self) -> (class: Vec<String>)
        ensures
            class_view(class) == self.spec_sfg_class(),
    {
        let mut class: Vec<String> = Vec::new();
        class.push("XY".to_owned());
        class.push(self.tag().to_owned());
        class.push("sfg".to_owned());
        assert(class_view(class) =~= self.spec_sfg_class());
        class
    }

    pub fn handle_class(self) -> (class: Vec<String>)
        ensures
            class_view(class) == self.spec_handle_class(),
    {
        let mut class: Vec<String> = Vec::new();
        class.push(self.name().to_owned());
        class.push("Geom".to_owned());
        assert(class_view(class) =~= self.spec_handle_class());
        class
    }
}

/// Each kind is the one that its own tag names: no two kinds share a tag.
pub proof fn lemma_tag_names_kind(k: Kind)
    ensures
        Kind::spec_from_tag(k.spec_tag()) == Some(k),
        Kind::spec_of_class(k.spec_sfg_class()) == Some(k),
{
    reveal_strlit("POINT");
    reveal_strlit("MULTIPOINT");
    reveal_strlit("LINESTRING");
    reveal_strlit("MULTILINESTRING");
    reveal_strlit("POLYGON");
    reveal_strlit("MULTIPOLYGON");
    assert("POINT"@.len() == 5);
    assert("MULTIPOINT"@.len() == 10 && "MULTIPOINT"@[0] == 'M');
    assert("LINESTRING"@.len() == 10 && "LINESTRING"@[0] == 'L');
    assert("MULTILINESTRING"@.len() == 15);
    assert("POLYGON"@.len() == 7);
    assert("MULTIPOLYGON"@.len() == 12);
}

} // verus!
