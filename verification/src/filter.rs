//! The three ways of restricting the list that is shown.

use vstd::prelude::*;
use crate::text::str_eq;

verus! {

/// Which items a listing shows.
#[derive(Clone, Copy, Debug, PartialEq, Eq, Structural)]
pub enum Filter {
    All,
    Active,
    Completed,
}

/// A filter name that is none of `All`, `Active`, `Completed`.
#[derive(Clone, Copy, Debug, PartialEq, Eq, Structural)]
pub struct InvalidFilterError;

/// The filter that a name stands for. Names are matched exactly, case included.
pub open spec fn filter_of_name(name: Seq<char>) -> Option<Filter> {
    if name == "All"@ {
        Some(Filter::All)
    } else if name == "Active"@ {
        Some(Filter::Active)
    } else if name == "Completed"@ {
        Some(Filter::Completed)
    } else {
        None
    }
}

impl Filter {
    /// Whether an item with the given `done` flag is shown under this filter.
    pub open spec fn admits(self, done: bool) -> bool {
        match self {
            Filter::All => true,
            Filter::Active => !done,
            Filter::Completed => done,
        }
    }

    /// Executable form of [`Filter::admits`].
    pub fn shows(self, done: bool) -> (shown: bool)
        ensures
            shown == self.admits(done),
    {
        match self {
            Filter::All => true,
            Filter::Active => !done,
            Filter::Completed => done,
        }
    }

    /// Reads a filter from its name.
    pub fn parse(name: &str) -> (parsed: Result<Filter, InvalidFilterError>)
        ensures
            parsed == match filter_of_name(name@) {
                Some(f) => Ok::<Filter, InvalidFilterError>(f),
                None => Err::<Filter, InvalidFilterError>(InvalidFilterError),
            },
    {
        if str_eq(name, "All") {
            Ok(Filter::All)
        } else if str_eq(name, "Active") {
            Ok(Filter::Active)
        } else if str_eq(name, "Completed") {
            Ok(Filter::Completed)
        } else {
            Err(InvalidFilterError)
        }
    }

    /// The name that [`Filter::parse`] reads back.
    pub fn name(self) -> (name: &'static str)
        ensures
            filter_of_name(name@) == Some(self),
    {
        proof {
            reveal_strlit("All");
            reveal_strlit("Active");
            reveal_strlit("Completed");
        }
        let name = match self {
            Filter::All => "All",
            Filter::Active => "Active",
            Filter::Completed => "Completed",
        };
        assert("Active"@.len() == 6 && "All"@.len() == 3 && "Completed"@.len() == 9);
        name
    }
}

} // verus!
