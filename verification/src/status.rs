//! The accepted status codes: the syntax of the list they are given in, the
//! set they form, and the classification of a response against it.

use crate::error::{ConfigError, ConfigErrorView};
use crate::text::{
    all_digits, decimal, decimal_value, fields, lemma_decimal_round_trip,
    lemma_decimal_value_grows, split_fields,
};
use vstd::prelude::*;
use vstd::string::*;

verus! {

/// The digits of a list entry: the entry itself, without a leading `+` if it
/// has one.
pub open spec fn numeral_of(entry: Seq<char>) -> Seq<char> {
    if entry.len() > 0 && entry[0] == '+' {
        entry.skip(1)
    } else {
        entry
    }
}

/// The status code that a list entry denotes, if it denotes one: an optional
/// `+`, then one or more decimal digits whose value fits in sixteen bits.
/// Nothing else is an entry: no blanks, no `-`, no empty entry.
pub open spec fn status_code_of(entry: Seq<char>) -> Option<u16> {
    let numeral = numeral_of(entry);
    if numeral.len() > 0 && all_digits(numeral) && decimal_value(numeral) <= u16::MAX {
        Some(decimal_value(numeral) as u16)
    } else {
        None
    }
}

/// A status code written in decimal is an entry that denotes it.
pub proof fn lemma_written_code_reads_back(code: u16)
    ensures
        status_code_of(decimal(code as nat)) == Some(code),
{
    lemma_decimal_round_trip(code as nat);
}

/// The position of the first entry that denotes no status code.
pub open spec fn first_invalid(entries: Seq<Seq<char>>) -> Option<int>
    decreases entries.len(),
{
    if entries.len() == 0 {
        None
    } else {
        match first_invalid(entries.drop_last()) {
            Some(i) => Some(i),
            None => if status_code_of(entries.last()) is None {
                Some(entries.len() - 1)
            } else {
                None
            },
        }
    }
}

/// The status codes that the entries denote, entry by entry.
pub open spec fn codes_of(entries: Seq<Seq<char>>) -> Seq<u16> {
    Seq::new(
        entries.len(),
        |i: int|
            match status_code_of(entries[i]) {
                Some(code) => code,
                None => 0,
            },
    )
}

/// `codes` without its repetitions: each code stays where it first occurs.
pub open spec fn collapse(codes: Seq<u16>) -> Seq<u16>
    decreases codes.len(),
{
    if codes.len() == 0 {
        Seq::<u16>::empty()
    } else {
        let before = collapse(codes.drop_last());
        if before.contains(codes.last()) {
            before
        } else {
            before.push(codes.last())
        }
    }
}

/// What a comma-separated status-code list is read as: the codes it names,
/// once each and in the order in which they first occur, or the first entry
/// that is no status code.
pub open spec fn accepted_codes(list: Seq<char>) -> Result<Seq<u16>, ConfigErrorView> {
    let entries = fields(list, ',');
    match first_invalid(entries) {
        Some(i) => Err(ConfigErrorView::InvalidStatusCode { position: i, entry: entries[i] }),
        None => Ok(collapse(codes_of(entries))),
    }
}

/// `first_invalid` finds the entry it is named after: it answers with a
/// position exactly when that entry denotes no status code and every entry
/// before it denotes one, and with none exactly when every entry denotes one.
pub proof fn lemma_first_invalid(entries: Seq<Seq<char>>)
    ensures
        (match first_invalid(entries) {
            Some(i) => {
                &&& 0 <= i < entries.len()
                &&& status_code_of(entries[i]) is None
                &&& forall|j: int| 0 <= j < i ==> status_code_of(#[trigger] entries[j]) is Some
            },
            None => forall|j: int|
                0 <= j < entries.len() ==> status_code_of(#[trigger] entries[j]) is Some,
        }),
    decreases entries.len(),
{
    if entries.len() > 0 {
        lemma_first_invalid(entries.drop_last());
        assert(forall|j: int|
            0 <= j < entries.len() - 1 ==> entries.drop_last()[j] == #[trigger] entries[j]);
    }
}

/// An invalid entry found among the first `k` entries is the first invalid
/// entry of the whole list.
proof fn lemma_first_invalid_stays(entries: Seq<Seq<char>>, k: int)
    requires
        0 <= k <= entries.len(),
        first_invalid(entries.take(k)) is Some,
    ensures
        first_invalid(entries) == first_invalid(entries.take(k)),
    decreases entries.len(),
{
    if k == entries.len() {
        assert(entries.take(k) =~= entries);
    } else {
        assert(entries.drop_last().take(k) =~= entries.take(k));
        lemma_first_invalid_stays(entries.drop_last(), k);
    }
}

/// Collapsing keeps exactly the codes that occur, and keeps each once.
pub proof fn lemma_collapse(codes: Seq<u16>)
    ensures
        collapse(codes).no_duplicates(),
        forall|code: u16| collapse(codes).contains(code) <==> codes.contains(code),
    decreases codes.len(),
{
    if codes.len() > 0 {
        let shorter = codes.drop_last();
        let before = collapse(shorter);
        lemma_collapse(shorter);
        assert forall|code: u16| collapse(codes).contains(code) <==> codes.contains(code) by {
            if codes.contains(code) {
                let i = choose|i: int| 0 <= i < codes.len() && codes[i] == code;
                if i < codes.len() - 1 {
                    assert(shorter[i] == code);
                    assert(shorter.contains(code));
                    let j = choose|j: int| 0 <= j < before.len() && before[j] == code;
                    assert(collapse(codes)[j] == code);
                } else if !before.contains(code) {
                    assert(collapse(codes)[before.len() as int] == code);
                }
            }
            if collapse(codes).contains(code) {
                let j = choose|j: int| 0 <= j < collapse(codes).len() && collapse(codes)[j] == code;
                if j < before.len() {
                    assert(before[j] == code);
                    assert(before.contains(code));
                    assert(shorter.contains(code));
                    let i = choose|i: int| 0 <= i < shorter.len() && shorter[i] == code;
                    assert(codes[i] == code);
                } else {
                    assert(codes[codes.len() - 1] == code);
                }
            }
        }
    }
}

/// Reads one entry of a status-code list.
pub fn parse_status_code(entry: &str) -> (code: Option<u16>)
    ensures
        code == status_code_of(entry@),
{
    let mut value: u32 = 0;
    let mut any = false;
    let mut first = true;
    for c in it: entry.chars()
        invariant
            it.seq() == entry@,
            first <==> it.index() == 0,
            all_digits(numeral_of(entry@.take(it.index()))),
            any <==> numeral_of(entry@.take(it.index())).len() > 0,
            value == decimal_value(numeral_of(entry@.take(it.index()))),
            value <= u16::MAX,
    {
        let ghost seen = entry@.take(it.index());
        let ghost read = entry@.take(it.index() + 1);
        let ghost whole = numeral_of(entry@);
        if !first || c != '+' {
            assert(numeral_of(read) =~= numeral_of(seen).push(c));
            assert(numeral_of(read).drop_last() =~= numeral_of(seen));
            assert(whole.take(numeral_of(read).len() as int) =~= numeral_of(read));
            if '0' <= c && c <= '9' {
                let digit = c as u32 - '0' as u32;
                let next = value * 10 + digit;
                if next > 65535 {
                    proof {
                        lemma_decimal_value_grows(whole, numeral_of(read).len() as int);
                    }
                    return None;
                }
                value = next;
                any = true;
            } else {
                assert(whole[numeral_of(read).len() - 1] == c);
                return None;
            }
        }
        first = false;
    }
    assert(entry@.take(entry@.len() as int) =~= entry@);
    if any {
        Some(value as u16)
    } else {
        None
    }
}

/// A set of accepted status codes. It lists each code once, in the order in
/// which the codes were first given.
#[derive(Debug, PartialEq, Eq)]
pub struct StatusSet {
    codes: Vec<u16>,
}

impl Clone for StatusSet {
    fn clone(&self) -> (copy: StatusSet)
        ensures
            copy@ == self@,
    {
        proof {
            use_type_invariant(self);
        }
        StatusSet { codes: self.codes.clone() }
    }
}

impl View for StatusSet {
    type V = Seq<u16>;

    closed spec fn view(&self) -> Seq<u16> {
        self.codes@
    }
}

impl StatusSet {
    #[verifier::type_invariant]
    spec fn listed_once(self) -> bool {
        self.codes@.no_duplicates()
    }

    /// The set of the given codes; a code given more than once counts once.
    pub fn from_codes(codes: &Vec<u16>) -> (set: StatusSet)
        ensures
            set@ == collapse(codes@),
    {
        let mut kept: Vec<u16> = Vec::new();
        let mut i: usize = 0;
        while i < codes.len()
            invariant
                i <= codes.len(),
                kept@ == collapse(codes@.take(i as int)),
            decreases codes.len() - i,
        {
            assert(codes@.take(i + 1).drop_last() =~= codes@.take(i as int));
            if !holds(&kept, codes[i]) {
                kept.push(codes[i]);
            }
            i += 1;
        }
        assert(codes@.take(i as int) =~= codes@);
        proof {
            lemma_collapse(codes@);
        }
        StatusSet { codes: kept }
    }

    /// Reads a comma-separated list of status codes, such as
    /// `200,204,301,302,307`. The first entry that is not an unsigned 16-bit
    /// number is reported with its position, counted from zero.
    pub fn parse(list: &str) -> (result: Result<StatusSet, ConfigError>)
        ensures
            (match result {
                Ok(set) => accepted_codes(list@) == Ok::<Seq<u16>, ConfigErrorView>(set@),
                Err(error) => accepted_codes(list@) == Err::<Seq<u16>, ConfigErrorView>(error@),
            }),
    {
        let pieces = split_fields(list, ',');
        let ghost entries = fields(list@, ',');
        let mut codes: Vec<u16> = Vec::new();
        let mut i: usize = 0;
        while i < pieces.len()
            invariant
                i <= pieces.len(),
                entries == fields(list@, ','),
                pieces.deep_view() == entries,
                first_invalid(entries.take(i as int)) is None,
                codes@ == codes_of(entries.take(i as int)),
            decreases pieces.len() - i,
        {
            let ghost seen = entries.take(i as int);
            let ghost read = entries.take(i + 1);
            assert(read.drop_last() =~= seen);
            match parse_status_code(pieces[i].as_str()) {
                Some(code) => {
                    codes.push(code);
                },
                None => {
                    let entry = pieces[i].clone();
                    proof {
                        lemma_first_invalid_stays(entries, i + 1);
                    }
                    return Err(ConfigError::InvalidStatusCode { position: i, entry });
                },
            }
            i += 1;
        }
        assert(entries.take(i as int) =~= entries);
        Ok(StatusSet::from_codes(&codes))
    }

    /// Whether `code` is in the set.
    pub fn contains(&self, code: u16) -> (found: bool)
        ensures
            found == self@.contains(code),
    {
        holds(&self.codes, code)
    }

    /// The codes of the set, each once.
    pub fn codes(&self) -> (codes: &Vec<u16>)
        ensures
            codes@ == self@,
            codes@.no_duplicates(),
    {
        proof {
            use_type_invariant(self);
        }
        &self.codes
    }
}

/// Whether `code` occurs in `codes`.
fn holds(codes: &Vec<u16>, code: u16) -> (found: bool)
    ensures
        found == codes@.contains(code),
{
    let mut i: usize = 0;
    while i < codes.len()
        invariant
            i <= codes.len(),
            forall|j: int| 0 <= j < i ==> codes@[j] != code,
        decreases codes.len() - i,
    {
        if codes[i] == code {
            return true;
        }
        i += 1;
    }
    false
}

/// Classifies a response: it is a match exactly when its status code is one
/// of the accepted codes. Nothing but membership counts: no ranges, no
/// classes of codes.
pub fn classify(status: u16, accepted: &StatusSet) -> (matched: bool)
    ensures
        matched == accepted@.contains(status),
{
    accepted.contains(status)
}

} // verus!
