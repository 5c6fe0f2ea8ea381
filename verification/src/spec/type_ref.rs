use crate::source::{Span, span_text};
use vstd::prelude::*;

verus! {

/// A reference to a type, with its type parameters.
pub struct TypeRef<'a> {
    /// Name of the type.
    pub name: Span<'a>,
    /// Type parameters.
    pub params: Vec<TypeRef<'a>>,
}

/// A [`TypeRef`] with its parameters held as a sequence.
pub struct TypeRefModel<'a> {
    pub name: Span<'a>,
    pub params: Seq<TypeRefModel<'a>>,
}

/// The model of type reference `t`.
pub open spec fn type_ref_model<'a>(t: TypeRef<'a>) -> TypeRefModel<'a>
    decreases t,
{
    TypeRefModel {
        name: t.name,
        params: Seq::new(
            t.params@.len(),
            |k: int|
                if 0 <= k < t.params@.len() {
                    type_ref_model(t.params@[k])
                } else {
                    TypeRefModel { name: t.name, params: Seq::empty() }
                },
        ),
    }
}

impl<'a> View for TypeRef<'a> {
    type V = TypeRefModel<'a>;

    open spec fn view(&self) -> TypeRefModel<'a> {
        type_ref_model(*self)
    }
}

/// The models of type references `items`.
pub open spec fn type_refs_model<'a>(items: Seq<TypeRef<'a>>) -> Seq<TypeRefModel<'a>> {
    items.map_values(|t: TypeRef<'a>| type_ref_model(t))
}

/// A type reference models as its name with the models of its parameters.
pub proof fn lemma_type_ref_model<'a>(t: TypeRef<'a>)
    ensures
        type_ref_model(t) == (TypeRefModel { name: t.name, params: type_refs_model(t.params@) }),
{
    let m = type_ref_model(t);
    assert(m.params =~= type_refs_model(t.params@));
}

/// Position just past the `>` that brings the angle bracket depth of `s`,
/// read from `p` at depth `height`, back to zero or below; the end of `s`
/// if no such bracket follows.
pub open spec fn angle_end(s: Seq<char>, p: int, height: int) -> int
    decreases s.len() - p,
{
    if p < 0 || p >= s.len() {
        if p < 0 { 0 } else { p }
    } else if s[p] == '<' {
        angle_end(s, p + 1, height + 1)
    } else if s[p] == '>' {
        if height - 1 <= 0 {
            p + 1
        } else {
            angle_end(s, p + 1, height - 1)
        }
    } else {
        angle_end(s, p + 1, height)
    }
}

/// The span written for type reference `t`: its name alone where it has no
/// parameters, and else its name through the `>` that closes its
/// parameter list.
pub open spec fn type_ref_span<'a>(t: TypeRef<'a>) -> Span<'a> {
    if t.params@.len() == 0 {
        t.name
    } else {
        Span {
            source: t.name.source,
            start: t.name.start,
            end: angle_end(t.name.source.body@, t.name.end as int, 0) as usize,
        }
    }
}

impl<'a> TypeRef<'a> {
    /// Creates a reference to the type named `name`, without parameters.
    pub fn new(name: Span<'a>) -> (r: Self)
        ensures
            r.name == name,
            r.params@.len() == 0,
    {
        TypeRef { name, params: Vec::new() }
    }

    /// The span of the whole type reference, parameters included.
    pub fn as_span(&self) -> (r: Span<'a>)
        ensures
            r == type_ref_span(*self),
    {
        if self.params.len() == 0 {
            return self.name;
        }
        let body = self.name.source.body.as_slice();
        let mut end = self.name.end;
        let mut height: usize = 0;
        if end > body.len() {
            proof {
                assert(angle_end(body@, end as int, 0) == end);
            }
            return Span { source: self.name.source, start: self.name.start, end };
        }
        while end < body.len()
            invariant
                self.name.end <= end <= body@.len(),
                self.params@.len() > 0,
                body@ == self.name.source.body@,
                height <= end - self.name.end,
                angle_end(body@, self.name.end as int, 0) == angle_end(body@, end as int, height as int),
            decreases body@.len() - end,
        {
            let ch = body[end];
            let ghost e0 = end as int;
            end = end + 1;
            if ch == '<' {
                height = height + 1;
            } else if ch == '>' {
                if height <= 1 {
                    assert(angle_end(body@, e0, height as int) == end);
                    return Span { source: self.name.source, start: self.name.start, end };
                }
                height = height - 1;
            }
        }
        Span { source: self.name.source, start: self.name.start, end }
    }

    /// The characters of the whole type reference, parameters included.
    pub fn as_str(&self) -> (r: String)
        ensures
            r@ == span_text(type_ref_span(*self)),
    {
        self.as_span().as_str()
    }
}

} // verus!
