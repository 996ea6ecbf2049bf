use crate::typedef::{PageId, INVALID_PAGE_ID};
use std::cmp::Ordering;
use vstd::prelude::*;
use vstd::std_specs::cmp::PartialOrdSpecImpl;

verus! {

/// Address of a tuple: the page that holds it and its slot in that page.
/// Record ids are ordered by page first and by slot second.
#[derive(Clone, Copy, Debug, Hash, PartialEq, Eq, Structural, Ord)]
pub struct RecordId {
    page_id: PageId,
    slot_id: u16,
}

/// The character that writes the digit `d`.
pub open spec fn digit_char(d: nat) -> char {
    if d == 0 {
        '0'
    } else if d == 1 {
        '1'
    } else if d == 2 {
        '2'
    } else if d == 3 {
        '3'
    } else if d == 4 {
        '4'
    } else if d == 5 {
        '5'
    } else if d == 6 {
        '6'
    } else if d == 7 {
        '7'
    } else if d == 8 {
        '8'
    } else {
        '9'
    }
}

/// The decimal numeral of `n`, without leading zeroes.
pub open spec fn decimal(n: nat) -> Seq<char>
    decreases n,
{
    if n < 10 {
        seq![digit_char(n)]
    } else {
        decimal(n / 10).push(digit_char(n % 10))
    }
}

/// The one-character string of a digit.
fn digit_str(d: u64) -> (s: &'static str)
    requires
        d < 10,
    ensures
        s@ == seq![digit_char(d as nat)],
{
    proof {
        reveal_strlit("0");
        reveal_strlit("1");
        reveal_strlit("2");
        reveal_strlit("3");
        reveal_strlit("4");
        reveal_strlit("5");
        reveal_strlit("6");
        reveal_strlit("7");
        reveal_strlit("8");
        reveal_strlit("9");
    }
    let s = if d == 0 {
        "0"
    } else if d == 1 {
        "1"
    } else if d == 2 {
        "2"
    } else if d == 3 {
        "3"
    } else if d == 4 {
        "4"
    } else if d == 5 {
        "5"
    } else if d == 6 {
        "6"
    } else if d == 7 {
        "7"
    } else if d == 8 {
        "8"
    } else {
        "9"
    };
    assert(s@ =~= seq![digit_char(d as nat)]);
    s
}

/// Appends the decimal numeral of `n` to `out`.
pub fn append_decimal(out: &mut String, n: u64)
    ensures
        final(out)@ == old(out)@ + decimal(n as nat),
    decreases n,
{
    if n >= 10 {
        append_decimal(out, n / 10);
    }
    out.append(digit_str(n % 10));
    assert(out@ =~= old(out)@ + decimal(n as nat));
}

/// The decimal numeral of `n` as a string.
pub fn decimal_string(n: u64) -> (s: String)
    ensures
        s@ == decimal(n as nat),
{
    let mut s = String::new();
    append_decimal(&mut s, n);
    assert(s@ =~= decimal(n as nat));
    s
}

impl RecordId {
    pub closed spec fn spec_page_id(&self) -> PageId {
        self.page_id
    }

    pub closed spec fn spec_slot_id(&self) -> u16 {
        self.slot_id
    }

    /// The written form of a record id: page, a colon, slot.
    pub open spec fn spec_to_string(&self) -> Seq<char> {
        decimal(self.page_id() as nat) + seq![':'] + decimal(self.slot_id() as nat)
    }

    /// Whether `self` comes before `other`: on an earlier page, or on the same
    /// page in an earlier slot.
    pub open spec fn precedes(&self, other: &RecordId) -> bool {
        self.page_id() < other.page_id() || (self.page_id() == other.page_id() && self.slot_id()
            < other.slot_id())
    }

    /// The record id that names no tuple.
    pub fn invalid() -> (rid: RecordId)
        ensures
            rid.page_id() == INVALID_PAGE_ID,
            rid.slot_id() == 0,
    {
        RecordId { page_id: INVALID_PAGE_ID, slot_id: 0 }
    }

    pub fn new(page_id: PageId, sid: u16) -> (rid: RecordId)
        ensures
            rid.page_id() == page_id,
            rid.slot_id() == sid,
    {
        RecordId { page_id, slot_id: sid }
    }

    pub fn to_string(&self) -> (s: String)
        ensures
            s@ == self.spec_to_string(),
    {
        let mut s = String::new();
        append_decimal(&mut s, self.page_id);
        proof {
            reveal_strlit(":");
        }
        s.append(":");
        append_decimal(&mut s, self.slot_id as u64);
        assert(s@ =~= self.spec_to_string());
        s
    }

    #[verifier::when_used_as_spec(spec_page_id)]
    pub fn page_id(&self) -> (page_id: PageId)
        ensures
            page_id == self.spec_page_id(),
    {
        self.page_id
    }

    #[verifier::when_used_as_spec(spec_slot_id)]
    pub fn slot_id(&self) -> (slot_id: u16)
        ensures
            slot_id == self.spec_slot_id(),
    {
        self.slot_id
    }
}

impl PartialOrdSpecImpl for RecordId {
    open spec fn obeys_partial_cmp_spec() -> bool {
        true
    }

    open spec fn partial_cmp_spec(&self, other: &RecordId) -> Option<Ordering> {
        if self.precedes(other) {
            Some(Ordering::Less)
        } else if other.precedes(self) {
            Some(Ordering::Greater)
        } else {
            Some(Ordering::Equal)
        }
    }
}

impl PartialOrd for RecordId {
    fn partial_cmp(&self, other: &RecordId) -> (r: Option<Ordering>) {
        if self.page_id == other.page_id {
            if self.slot_id < other.slot_id {
                Some(Ordering::Less)
            } else if self.slot_id > other.slot_id {
                Some(Ordering::Greater)
            } else {
                Some(Ordering::Equal)
            }
        } else if self.page_id < other.page_id {
            Some(Ordering::Less)
        } else {
            Some(Ordering::Greater)
        }
    }
}

} // verus!
