//! The eligibility filter: which channels may award XP, whether a given
//! message earns any, and how much.
//!
//! A message earns nothing when it is empty, when it opens with a link
//! scheme marker, or when its first character sits in a fixed deny-set of
//! punctuation and symbols (bot commands, emotes, reactions-as-text).
//! Otherwise the award grows with the count of alphanumeric characters,
//! one point per seven, never below one.

use vstd::prelude::*;

use crate::text::eq_str;

verus! {

/// First characters that make a message ineligible.
pub open spec fn is_invalid_start(c: char) -> bool {
    ||| c == '!'
    ||| c == '?'
    ||| c == '.'
    ||| c == ','
    ||| c == ';'
    ||| c == ':'
    ||| c == ' '
    ||| c == '('
    ||| c == ')'
    ||| c == '{'
    ||| c == '}'
    ||| c == '['
    ||| c == ']'
    ||| c == '<'
    ||| c == '>'
    ||| c == '\\'
    ||| c == '/'
    ||| c == '|'
    ||| c == '@'
    ||| c == '$'
    ||| c == '%'
    ||| c == '^'
    ||| c == '&'
    ||| c == '+'
}

/// Runtime test of the deny-set.
pub fn invalid_start(c: char) -> (r: bool)
    ensures
        r == is_invalid_start(c),
{
    c == '!' || c == '?' || c == '.' || c == ',' || c == ';' || c == ':' || c == ' ' || c == '('
        || c == ')' || c == '{' || c == '}' || c == '[' || c == ']' || c == '<' || c == '>'
        || c == '\\' || c == '/' || c == '|' || c == '@' || c == '$' || c == '%' || c == '^'
        || c == '&' || c == '+'
}

/// Whether the message opens with the link scheme marker `http`.
pub open spec fn starts_with_http(s: Seq<char>) -> bool {
    s.len() >= 4 && s[0] == 'h' && s[1] == 't' && s[2] == 't' && s[3] == 'p'
}

/// What `char::is_alphanumeric` returns; a pure function of the character
/// whose full Unicode definition is not restated here.
pub uninterp spec fn is_alnum(c: char) -> bool;

/// Relies on char::is_alphanumeric: a pure Unicode property of the
/// character alone, named `is_alnum` in contracts.
#[verifier::external_body]
fn char_is_alphanumeric(c: char) -> (r: bool)
    ensures
        r == is_alnum(c),
{
    c.is_alphanumeric()
}

/// Number of alphanumeric characters in the message.
pub open spec fn alnum_count(s: Seq<char>) -> int
    decreases s.len(),
{
    if s.len() == 0 {
        0
    } else {
        alnum_count(s.drop_last()) + if is_alnum(s.last()) {
            1int
        } else {
            0int
        }
    }
}

/// The count never exceeds the length.
pub proof fn lemma_alnum_count_bounds(s: Seq<char>)
    ensures
        0 <= alnum_count(s) <= s.len(),
    decreases s.len(),
{
    if s.len() > 0 {
        lemma_alnum_count_bounds(s.drop_last());
    }
}

/// XP awarded for a message: zero when ineligible, else one point per
/// seven alphanumeric characters and at least one.
pub open spec fn spec_xp_from_message(s: Seq<char>) -> int {
    if s.len() == 0 || is_invalid_start(s[0]) || starts_with_http(s) {
        0
    } else {
        let points = alnum_count(s) / 7;
        if points < 1 {
            1
        } else {
            points
        }
    }
}

/// Compute the XP award for a message.
pub fn xp_from_message(message: &str) -> (r: i32)
    requires
        message@.len() < i32::MAX,
    ensures
        r == spec_xp_from_message(message@),
{
    let n = message.unicode_len();
    if n == 0 {
        return 0;
    }
    if invalid_start(message.get_char(0)) {
        return 0;
    }
    if n >= 4 && message.get_char(0) == 'h' && message.get_char(1) == 't' && message.get_char(2)
        == 't' && message.get_char(3) == 'p' {
        return 0;
    }
    let mut count: i32 = 0;
    let mut i: usize = 0;
    while i < n
        invariant
            n == message@.len(),
            n < i32::MAX,
            0 <= i <= n,
            0 <= count <= i,
            count == alnum_count(message@.subrange(0, i as int)),
        decreases n - i,
    {
        let c = message.get_char(i);
        proof {
            assert(message@.subrange(0, i + 1).drop_last() =~= message@.subrange(0, i as int));
            assert(message@.subrange(0, i + 1).last() == message@[i as int]);
        }
        if char_is_alphanumeric(c) {
            count = count + 1;
        }
        i = i + 1;
    }
    proof {
        assert(message@.subrange(0, n as int) =~= message@);
    }
    let points = count / 7;
    if points < 1 {
        1
    } else {
        points
    }
}

/// The set of channels registered to award XP; existence-only records
/// keyed by channel identifier.
pub struct XpChannelSet {
    /// Registered channel identifiers, free of duplicates.
    pub ids: Vec<String>,
}

/// Why a channel registration change was rejected.
#[derive(Clone, Copy, Debug, PartialEq, Eq, Structural)]
pub enum ChannelError {
    /// The channel is already registered.
    AlreadyRegistered,
    /// The channel is not registered.
    NotRegistered,
}

impl XpChannelSet {
    /// No identifier occurs twice.
    pub open spec fn wf(&self) -> bool {
        forall|i: int, j: int|
            0 <= i < j < self.ids@.len() ==> self.ids@[i]@ != self.ids@[j]@
    }

    /// Whether `id` is registered.
    pub open spec fn has(&self, id: Seq<char>) -> bool {
        exists|i: int| 0 <= i < self.ids@.len() && self.ids@[i]@ == id
    }

    /// An empty set.
    pub fn new() -> (r: XpChannelSet)
        ensures
            r.wf(),
            r.ids@.len() == 0,
            forall|id: Seq<char>| !r.has(id),
    {
        XpChannelSet { ids: Vec::new() }
    }

    /// Index of `id` in the backing vector, if present.
    fn index_of(&self, id: &str) -> (r: Option<usize>)
        ensures
            match r {
                Some(i) => i < self.ids@.len() && self.ids@[i as int]@ == id@,
                None => !self.has(id@),
            },
    {
        let mut i: usize = 0;
        while i < self.ids.len()
            invariant
                0 <= i <= self.ids@.len(),
                forall|j: int| 0 <= j < i ==> self.ids@[j]@ != id@,
            decreases self.ids@.len() - i,
        {
            if eq_str(self.ids[i].as_str(), id) {
                return Some(i);
            }
            i = i + 1;
        }
        None
    }

    /// Whether the channel is registered to award XP.
    pub fn contains(&self, id: &str) -> (r: bool)
        ensures
            r == self.has(id@),
    {
        self.index_of(id).is_some()
    }

    /// Register a channel; rejected when it already is.
    pub fn add(&mut self, id: String) -> (r: Result<(), ChannelError>)
        requires
            old(self).wf(),
        ensures
            final(self).wf(),
            r is Err <==> old(self).has(id@),
            r is Err ==> r == Result::<(), ChannelError>::Err(ChannelError::AlreadyRegistered)
                && *final(self) == *old(self),
            r is Ok ==> final(self).has(id@),
            r is Ok ==> final(self).ids@.len() == old(self).ids@.len() + 1,
            r is Ok ==> forall|x: Seq<char>|
                x != id@ ==> final(self).has(x) == old(self).has(x),
    {
        if self.contains(id.as_str()) {
            return Err(ChannelError::AlreadyRegistered);
        }
        let ghost before = self.ids@;
        self.ids.push(id);
        proof {
            assert forall|x: Seq<char>| x != id@ implies final(self).has(x) == old(self).has(
                x,
            ) by {
                if old(self).has(x) {
                    let i = choose|i: int| 0 <= i < before.len() && before[i]@ == x;
                    assert(self.ids@[i]@ == x);
                }
                if self.has(x) {
                    let i = choose|i: int| 0 <= i < self.ids@.len() && self.ids@[i]@ == x;
                    assert(i < before.len() && before[i]@ == x);
                }
            }
            assert(self.ids@[before.len() as int]@ == id@);
        }
        Ok(())
    }

    /// Deregister a channel; rejected when it is not registered.
    pub fn remove(&mut self, id: &str) -> (r: Result<(), ChannelError>)
        requires
            old(self).wf(),
        ensures
            final(self).wf(),
            r is Err <==> !old(self).has(id@),
            r is Err ==> r == Result::<(), ChannelError>::Err(ChannelError::NotRegistered)
                && *final(self) == *old(self),
            r is Ok ==> !final(self).has(id@),
            r is Ok ==> final(self).ids@.len() + 1 == old(self).ids@.len(),
            r is Ok ==> forall|x: Seq<char>|
                x != id@ ==> final(self).has(x) == old(self).has(x),
    {
        let found = self.index_of(id);
        match found {
            None => Err(ChannelError::NotRegistered),
            Some(i) => {
                let ghost before = self.ids@;
                self.ids.remove(i);
                proof {
                    assert forall|x: Seq<char>| x != id@ implies final(self).has(x) == old(
                        self,
                    ).has(x) by {
                        if old(self).has(x) {
                            let j = choose|j: int| 0 <= j < before.len() && before[j]@ == x;
                            if j < i {
                                assert(self.ids@[j]@ == x);
                            } else {
                                assert(j != i);
                                assert(self.ids@[j - 1]@ == x);
                            }
                        }
                        if self.has(x) {
                            let j = choose|j: int|
                                0 <= j < self.ids@.len() && self.ids@[j]@ == x;
                            if j < i {
                                assert(before[j]@ == x);
                            } else {
                                assert(before[j + 1]@ == x);
                            }
                        }
                    }
                    assert forall|j: int| 0 <= j < self.ids@.len() implies self.ids@[j]@
                        != id@ by {
                        if j < i {
                            assert(before[j]@ == self.ids@[j]@);
                        } else {
                            assert(before[j + 1]@ == self.ids@[j]@);
                        }
                    }
                }
                Ok(())
            },
        }
    }

    /// The registered identifiers, for listing.
    pub fn list(&self) -> (r: &Vec<String>)
        ensures
            r@ == self.ids@,
    {
        &self.ids
    }
}

/// Channel eligibility walks at most three levels of the hierarchy: the
/// channel itself, a thread's parent channel, and that parent's parent
/// category — each checked independently against the registered set.
pub fn channel_eligible(
    set: &XpChannelSet,
    channel: &str,
    parent: Option<&String>,
    grandparent: Option<&String>,
) -> (r: bool)
    ensures
        r == (set.has(channel@) || (match parent {
            Some(p) => set.has(p@),
            None => false,
        }) || (match grandparent {
            Some(g) => set.has(g@),
            None => false,
        })),
{
    if set.contains(channel) {
        return true;
    }
    if let Some(p) = parent {
        if set.contains(p.as_str()) {
            return true;
        }
    }
    if let Some(g) = grandparent {
        if set.contains(g.as_str()) {
            return true;
        }
    }
    false
}

} // verus!
