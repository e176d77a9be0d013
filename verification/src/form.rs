//! Submitted form bodies, decoded with `serde_urlencoded`.

use vstd::prelude::*;
use crate::router::pair_views;
use crate::text::str_eq;

verus! {

/// Why a form body gave no value for a field.
#[derive(Clone, Copy, Debug, PartialEq, Eq, Structural)]
pub enum FormError {
    /// The body could not be decoded into pairs.
    Malformed,
    /// No pair has the field's name.
    MissingField,
    /// More than one pair has the field's name.
    DuplicateField,
}

/// The pairs of name and value that `serde_urlencoded` reads from a body, in
/// the order of the body; `None` where it gives an error.
pub uninterp spec fn urlencoded_pairs(body: Seq<char>) -> Option<Seq<(Seq<char>, Seq<char>)>>;

/// `serde_urlencoded::from_str`, asked for a list of pairs of strings.
#[verifier::external_body]
fn decode_pairs(body: &str) -> (pairs: Option<Vec<(String, String)>>)
    ensures
        match pairs {
            Some(p) => urlencoded_pairs(body@) == Some(pair_views(p@)),
            None => urlencoded_pairs(body@) is None,
        },
{
    serde_urlencoded::from_str::<Vec<(String, String)>>(body).ok()
}

/// The positions of the pairs with the given name, in ascending order.
pub open spec fn positions_of(pairs: Seq<(Seq<char>, Seq<char>)>, name: Seq<char>) -> Seq<int>
    decreases pairs.len(),
{
    if pairs.len() == 0 {
        Seq::empty()
    } else if pairs.last().0 == name {
        positions_of(pairs.drop_last(), name).push(pairs.len() - 1)
    } else {
        positions_of(pairs.drop_last(), name)
    }
}

/// The value of a field that must occur exactly once among the pairs.
pub open spec fn single_value(pairs: Seq<(Seq<char>, Seq<char>)>, name: Seq<char>) -> Result<
    Seq<char>,
    FormError,
> {
    let at = positions_of(pairs, name);
    if at.len() == 0 {
        Err(FormError::MissingField)
    } else if at.len() == 1 {
        Ok(pairs[at[0]].1)
    } else {
        Err(FormError::DuplicateField)
    }
}

/// The value of a field that must occur exactly once in a form body.
pub open spec fn field_of_body(body: Seq<char>, name: Seq<char>) -> Result<Seq<char>, FormError> {
    match urlencoded_pairs(body) {
        Some(pairs) => single_value(pairs, name),
        None => Err(FormError::Malformed),
    }
}

/// The value of the field with the given name, which must occur exactly once
/// among the pairs.
pub fn field_of_pairs(pairs: &Vec<(String, String)>, name: &str) -> (value: Result<
    String,
    FormError,
>)
    ensures
        match value {
            Ok(v) => single_value(pair_views(pairs@), name@) == Ok::<Seq<char>, FormError>(v@),
            Err(e) => single_value(pair_views(pairs@), name@) == Err::<Seq<char>, FormError>(e),
        },
{
    let ghost views = pair_views(pairs@);
    let mut found: Option<usize> = None;
    let mut i: usize = 0;
    while i < pairs.len()
        invariant
            i <= pairs.len(),
            views == pair_views(pairs@),
            match found {
                Some(k) => k < i && positions_of(views.take(i as int), name@) == seq![k as int],
                None => positions_of(views.take(i as int), name@).len() == 0,
            },
        decreases pairs.len() - i,
    {
        proof {
            assert(views.take(i + 1).drop_last() =~= views.take(i as int));
            assert(views.take(i + 1).last() == (pairs@[i as int].0@, pairs@[i as int].1@));
        }
        if str_eq(pairs[i].0.as_str(), name) {
            match found {
                Some(_) => {
                    proof {
                        lemma_positions_grow(views, name@, i + 1);
                    }
                    return Err(FormError::DuplicateField);
                },
                None => {
                    found = Some(i);
                },
            }
        }
        i = i + 1;
    }
    proof {
        assert(views.take(i as int) =~= views);
    }
    match found {
        Some(k) => Ok(pairs[k].1.clone()),
        None => Err(FormError::MissingField),
    }
}

/// A longer start of the pairs has at least as many with the name.
pub proof fn lemma_positions_grow(pairs: Seq<(Seq<char>, Seq<char>)>, name: Seq<char>, k: int)
    requires
        0 <= k <= pairs.len(),
    ensures
        positions_of(pairs.take(k), name).len() <= positions_of(pairs, name).len(),
    decreases pairs.len() - k,
{
    if k < pairs.len() {
        assert(pairs.take(k + 1).drop_last() =~= pairs.take(k));
        lemma_positions_grow(pairs, name, k + 1);
    } else {
        assert(pairs.take(k) =~= pairs);
    }
}

/// The value of a field that must occur exactly once in a form body.
pub fn form_field(body: &str, name: &str) -> (value: Result<String, FormError>)
    ensures
        match value {
            Ok(v) => field_of_body(body@, name@) == Ok::<Seq<char>, FormError>(v@),
            Err(e) => field_of_body(body@, name@) == Err::<Seq<char>, FormError>(e),
        },
{
    match decode_pairs(body) {
        Some(pairs) => field_of_pairs(&pairs, name),
        None => Err(FormError::Malformed),
    }
}

} // verus!
