//! A field line as the grammar hands it over: a name and a value carved out
//! of the input, before any typing.
use vstd::prelude::*;

verus! {

/// A raw `name: value` pair produced by the line grammar.
#[derive(Debug, PartialEq)]
pub struct RawField {
    pub name: String,
    pub value: String,
}

/// The mathematical shadow of a `RawField`.
pub struct RawFieldView {
    pub name: Seq<char>,
    pub value: Seq<char>,
}

impl View for RawField {
    type V = RawFieldView;

    open spec fn view(&self) -> RawFieldView {
        RawFieldView { name: self.name@, value: self.value@ }
    }
}

/// The view of an optional raw field.
pub open spec fn opt_rf_view(f: Option<RawField>) -> Option<RawFieldView> {
    match f {
        Some(x) => Some(x@),
        None => None,
    }
}

/// The views of a sequence of optional raw fields.
pub open spec fn opt_rf_views(v: Seq<Option<RawField>>) -> Seq<Option<RawFieldView>> {
    Seq::new(v.len(), |i: int| opt_rf_view(v[i]))
}

/// The views of a sequence of raw fields.
pub open spec fn rf_views(v: Seq<RawField>) -> Seq<RawFieldView> {
    Seq::new(v.len(), |i: int| v[i]@)
}

/// Comments and blank lines dropped: the subsequence of real fields, in
/// source order.
pub open spec fn flatten_opts(fs: Seq<Option<RawFieldView>>) -> Seq<RawFieldView>
    decreases fs.len(),
{
    if fs.len() == 0 {
        Seq::empty()
    } else {
        (match fs[0] {
            Some(f) => seq![f],
            None => Seq::empty(),
        }) + flatten_opts(fs.drop_first())
    }
}

} // verus!
