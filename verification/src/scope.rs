//! Isolation scopes. Every server is one, and so is every DM conversation;
//! nothing the bot learns in one is reachable from another.

use vstd::prelude::*;

use crate::assoc::{Copied, Key};
use crate::text;
use crate::text::{begins_with, decimal, parsed_u64};

verus! {

/// One isolation scope: a server, by its id, or a DM, by its channel id.
#[derive(Clone, Copy, PartialEq, Eq, Structural, Debug, Hash)]
pub enum Scope {
    Guild(u64),
    Dm(u64),
}

impl View for Scope {
    type V = Scope;

    open spec fn view(&self) -> Scope {
        *self
    }
}

impl Key for Scope {
    fn same_key(&self, other: &Self) -> (res: bool) {
        *self == *other
    }
}

impl Copied for Scope {
    fn copied(&self) -> (res: Self) {
        *self
    }
}

/// How a scope is written: the guild id, or `dm-` and the channel id.
pub open spec fn scope_name(s: Scope) -> Seq<char> {
    match s {
        Scope::Guild(g) => decimal(g as nat),
        Scope::Dm(c) => "dm-"@ + decimal(c as nat),
    }
}

/// The scope that a text names, if it names one.
pub open spec fn parsed_scope(s: Seq<char>) -> Option<Scope> {
    if begins_with(s, "dm-"@) {
        match parsed_u64(s.skip(3)) {
            Some(c) => Some(Scope::Dm(c)),
            None => None,
        }
    } else {
        match parsed_u64(s) {
            Some(g) => Some(Scope::Guild(g)),
            None => None,
        }
    }
}

impl Scope {
    /// The scope as it is written in file names and map keys.
    pub fn to_string(&self) -> (s: String)
        ensures
            s@ == scope_name(*self),
    {
        match *self {
            Scope::Guild(g) => text::u64_to_string(g),
            Scope::Dm(c) => text::join2("dm-", text::u64_to_string(c).as_str()),
        }
    }

    /// Reads a scope back from the way it is written.
    pub fn parse(s: &str) -> (res: Option<Scope>)
        ensures
            res == parsed_scope(s@),
    {
        if text::starts_with(s, "dm-") {
            let chars = text::chars_of(s);
            proof {
                reveal_strlit("dm-");
            }
            let rest = text::string_of(&chars, 3, chars.len());
            assert(rest@ =~= s@.skip(3));
            match text::parse_u64(rest.as_str()) {
                Some(c) => Some(Scope::Dm(c)),
                None => None,
            }
        } else {
            match text::parse_u64(s) {
                Some(g) => Some(Scope::Guild(g)),
                None => None,
            }
        }
    }
}

/// A scope that was written out is read back as the same scope.
pub proof fn scope_round_trip(s: Scope)
    ensures
        parsed_scope(scope_name(s)) == Some(s),
{
    reveal_strlit("dm-");
    match s {
        Scope::Guild(g) => {
            text::decimal_round_trip(g);
            text::lemma_decimal_digits(g as nat);
            let d = decimal(g as nat);
            assert(text::is_digit(d[0]));
            if begins_with(d, "dm-"@) {
                assert(d.take(3)[0] == d[0]);
                assert("dm-"@[0] == 'd');
            }
        },
        Scope::Dm(c) => {
            text::decimal_round_trip(c);
            let d = decimal(c as nat);
            assert(scope_name(s).take(3) =~= "dm-"@);
            assert(scope_name(s).skip(3) =~= d);
        },
    }
}

/// Two scopes are never written the same way, so what is kept under a scope's
/// name is kept apart from every other scope.
pub proof fn scope_names_distinct(a: Scope, b: Scope)
    requires
        scope_name(a) == scope_name(b),
    ensures
        a == b,
{
    scope_round_trip(a);
    scope_round_trip(b);
}

/// How scopes are written and read: a server by its id, a DM by its channel id
/// behind `dm-`, and nothing else is one.
pub proof fn scopes_are_read_as_written(id: u64, rest: Seq<char>, s: Seq<char>)
    ensures
        scope_name(Scope::Guild(id)) == decimal(id as nat),
        scope_name(Scope::Dm(id)) == "dm-"@ + decimal(id as nat),
        parsed_scope("dm-"@ + rest) == (match parsed_u64(rest) {
            Some(c) => Some(Scope::Dm(c)),
            None => None::<Scope>,
        }),
        parsed_u64(s) matches Some(g) ==> parsed_scope(s) == Some(Scope::Guild(g)),
        parsed_scope(s) matches Some(Scope::Guild(g)) ==> parsed_u64(s) == Some(g),
{
    reveal_strlit("dm-");
    text::prefix_is_a_part("dm-"@ + rest, "dm-"@, rest);
    assert(("dm-"@ + rest).skip(3) =~= rest);
    if begins_with(s, "dm-"@) {
        assert(s.take(3)[0] == s[0]);
        text::other_texts_are_no_numerals(s, 0);
    }
}

} // verus!
