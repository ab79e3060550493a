//! The token bias table: per-token adjustments of the sampling score, and
//! the text form in which the user gives them.

use crate::decimal::{is_decimal, is_digit, is_digits, Decimal};
use crate::decimal::{is_decimal_char, lemma_decimal_chars};
use crate::text::{chars_of, find_first, first_in, lemma_first_in, lemma_first_in_is, push_text};
use vstd::prelude::*;

verus! {

/// The identifier of a token in the vocabulary.
pub type TokenId = u32;

/// One entry of a bias table, as mathematics: the token, and the characters
/// of its bias.
pub type BiasPair = (TokenId, Seq<char>);

/// What is wrong with a segment of a bias list.
#[derive(Clone, Copy, Debug, PartialEq, Eq, Structural)]
pub enum ParseErrorKind {
    /// The segment holds no `=`.
    MissingEquals,
    /// What stands before the `=` is no token identifier.
    InvalidTokenId,
    /// What stands after the `=` is no decimal.
    InvalidBias,
}

/// A malformed bias list: the first segment that is wrong, counted
/// from zero, and what is wrong with it.
#[derive(Clone, Copy, Debug, PartialEq, Eq, Structural)]
pub struct ParseError {
    pub segment: usize,
    pub kind: ParseErrorKind,
}

/// The number that a character stands for as a digit.
pub open spec fn digit_value(c: char) -> nat {
    (c as u32 - '0' as u32) as nat
}

/// The digit that stands for a number below ten.
pub open spec fn digit_char(d: nat) -> char {
    if d == 0 {
        '0'
    } else if d == 1 {
        '1'
    } else if d == 2 {
        '2'
    } else if d == 3 {
        '3'
    } else if d == 4 {
        '4'
    } else if d == 5 {
        '5'
    } else if d == 6 {
        '6'
    } else if d == 7 {
        '7'
    } else if d == 8 {
        '8'
    } else {
        '9'
    }
}

/// The number that a run of digits denotes in base ten.
pub open spec fn decimal_value(digits: Seq<char>) -> nat
    decreases digits.len(),
{
    if digits.len() == 0 {
        0
    } else {
        decimal_value(digits.drop_last()) * 10 + digit_value(digits.last())
    }
}

/// The digits of a number in base ten, without leading zeros.
pub open spec fn digits_of(n: nat) -> Seq<char>
    decreases n,
{
    if n < 10 {
        seq![digit_char(n)]
    } else {
        digits_of(n / 10).push(digit_char(n % 10))
    }
}

/// A token identifier: digits, at least one, that denote a number within the
/// range of `TokenId`.
pub open spec fn is_token_id(text: Seq<char>) -> bool {
    text.len() >= 1 && is_digits(text) && decimal_value(text) <= TokenId::MAX
}

/// The segments of a bias list: what stands between its commas.
pub open spec fn segments(text: Seq<char>) -> Seq<Seq<char>>
    decreases text.len(),
{
    let comma = first_in(text, set![',']);
    if 0 <= comma < text.len() {
        seq![text.take(comma)] + segments(text.skip(comma + 1))
    } else {
        seq![text]
    }
}

/// The entry that a segment gives: the token before its first `=`, the bias
/// after it.
pub open spec fn parsed_segment(segment: Seq<char>) -> Result<BiasPair, ParseErrorKind> {
    let equals = first_in(segment, set!['=']);
    if !(0 <= equals < segment.len()) {
        Err(ParseErrorKind::MissingEquals)
    } else if !is_token_id(segment.take(equals)) {
        Err(ParseErrorKind::InvalidTokenId)
    } else if !is_decimal(segment.skip(equals + 1)) {
        Err(ParseErrorKind::InvalidBias)
    } else {
        Ok((decimal_value(segment.take(equals)) as TokenId, segment.skip(equals + 1)))
    }
}

/// The entries that a run of segments gives, in order, or the first segment
/// among them that is wrong.
pub open spec fn parsed_segments(segments: Seq<Seq<char>>) -> Result<Seq<BiasPair>, ParseError>
    decreases segments.len(),
{
    if segments.len() == 0 {
        Ok(Seq::empty())
    } else {
        match parsed_segments(segments.drop_last()) {
            Err(error) => Err(error),
            Ok(pairs) => match parsed_segment(segments.last()) {
                Err(kind) => Err(ParseError { segment: (segments.len() - 1) as usize, kind }),
                Ok(pair) => Ok(pairs.push(pair)),
            },
        }
    }
}

/// The table that a run of entries makes: each entry is written in turn, so
/// of two entries for one token the later one stays.
pub open spec fn table_of(pairs: Seq<BiasPair>) -> Map<TokenId, Seq<char>>
    decreases pairs.len(),
{
    if pairs.len() == 0 {
        Map::empty()
    } else {
        table_of(pairs.drop_last()).insert(pairs.last().0, pairs.last().1)
    }
}

/// The table that a bias list denotes. The empty text denotes the empty
/// table; any other text is a list of segments, each of which must be right.
pub open spec fn parsed_bias(text: Seq<char>) -> Result<Map<TokenId, Seq<char>>, ParseError> {
    if text.len() == 0 {
        Ok(Map::empty())
    } else {
        match parsed_segments(segments(text)) {
            Ok(pairs) => Ok(table_of(pairs)),
            Err(error) => Err(error),
        }
    }
}

/// The text of one entry.
pub open spec fn rendered_pair(pair: BiasPair) -> Seq<char> {
    digits_of(pair.0 as nat) + seq!['='] + pair.1
}

/// The text of a run of entries: one segment each, with commas between them.
pub open spec fn rendered(pairs: Seq<BiasPair>) -> Seq<char>
    decreases pairs.len(),
{
    if pairs.len() == 0 {
        Seq::empty()
    } else if pairs.len() == 1 {
        rendered_pair(pairs[0])
    } else {
        rendered(pairs.drop_last()) + seq![','] + rendered_pair(pairs.last())
    }
}

/// Entries in strictly rising order of their tokens.
pub open spec fn is_ascending(pairs: Seq<BiasPair>) -> bool {
    forall|i: int, j: int| 0 <= i < j < pairs.len() ==> pairs[i].0 < pairs[j].0
}

/// Entries whose every bias is a decimal.
pub open spec fn has_decimals(pairs: Seq<BiasPair>) -> bool {
    forall|i: int| 0 <= i < pairs.len() ==> is_decimal((#[trigger] pairs[i]).1)
}

/// A longer run of digits denotes no smaller number than its beginning.
proof fn lemma_decimal_value_grows(digits: Seq<char>, upto: int)
    requires
        0 <= upto <= digits.len(),
    ensures
        decimal_value(digits.take(upto)) <= decimal_value(digits),
    decreases digits.len(),
{
    if upto == digits.len() {
        assert(digits.take(upto) == digits);
    } else {
        lemma_decimal_value_grows(digits.drop_last(), upto);
        assert(digits.drop_last().take(upto) == digits.take(upto));
    }
}

/// The digits of a number are digits, and denote the number.
pub proof fn lemma_digits_of(n: nat)
    ensures
        digits_of(n).len() >= 1,
        is_digits(digits_of(n)),
        decimal_value(digits_of(n)) == n,
    decreases n,
{
    if n < 10 {
        let digits = digits_of(n);
        assert(digits.drop_last().len() == 0);
        assert(decimal_value(digits.drop_last()) == 0);
    } else {
        lemma_digits_of(n / 10);
        let digits = digits_of(n);
        assert(digits.drop_last() == digits_of(n / 10));
        assert(digits.last() == digit_char(n % 10));
        assert forall|i: int| 0 <= i < digits.len() implies is_digit(#[trigger] digits[i]) by {
            if i < digits.len() - 1 {
                assert(digits[i] == digits_of(n / 10)[i]);
            }
        }
    }
}

/// Reads a token identifier.
fn token_id_from(text: &[char]) -> (out: Option<TokenId>)
    ensures
        out is Some <==> is_token_id(text@),
        out matches Some(id) ==> id == decimal_value(text@),
{
    if text.len() == 0 {
        return None;
    }
    let mut value: u64 = 0;
    let mut i: usize = 0;
    while i < text.len()
        invariant
            0 <= i <= text@.len(),
            is_digits(text@.take(i as int)),
            value == decimal_value(text@.take(i as int)),
            value <= TokenId::MAX,
        decreases text@.len() - i,
    {
        let c = text[i];
        if !('0' <= c && c <= '9') {
            return None;
        }
        let digit: u64 = (c as u32 - '0' as u32) as u64;
        value = value * 10 + digit;
        i += 1;
        proof {
            let upto = text@.take(i as int);
            assert(upto.drop_last() == text@.take(i - 1));
            assert(upto.last() == c);
            assert forall|k: int| 0 <= k < upto.len() implies is_digit(#[trigger] upto[k]) by {
                if k < i - 1 {
                    assert(upto[k] == text@.take(i - 1)[k]);
                }
            }
        }
        if value > 0xffff_ffff {
            proof {
                lemma_decimal_value_grows(text@, i as int);
            }
            return None;
        }
    }
    assert(text@.take(text@.len() as int) == text@);
    Some(value as u32)
}

/// Appends the digits of `n` to `text`.
fn push_number(text: &mut String, n: u32)
    ensures
        final(text)@ == old(text)@ + digits_of(n as nat),
    decreases n,
{
    if n >= 10 {
        push_number(text, n / 10);
    }
    let digit = match n % 10 {
        0 => '0',
        1 => '1',
        2 => '2',
        3 => '3',
        4 => '4',
        5 => '5',
        6 => '6',
        7 => '7',
        8 => '8',
        _ => '9',
    };
    let ghost before = text@;
    text.push(digit);
    proof {
        if n >= 10 {
            assert(before.push(digit) == old(text)@ + digits_of(n as nat));
        } else {
            assert(old(text)@.push(digit) == old(text)@ + digits_of(n as nat));
        }
    }
}

/// The entries that a run of stored entries stands for.
pub open spec fn pairs_of(entries: Seq<(TokenId, Decimal)>) -> Seq<BiasPair> {
    entries.map_values(|entry: (TokenId, Decimal)| (entry.0, entry.1@))
}

/// Whether some entry of `pairs` is for `id`.
pub open spec fn has_token(pairs: Seq<BiasPair>, id: TokenId) -> bool {
    exists|i: int| 0 <= i < pairs.len() && (#[trigger] pairs[i]).0 == id
}

/// Whether no entry after the one at `at` is for the same token.
pub open spec fn is_last_of(pairs: Seq<BiasPair>, at: int) -> bool {
    forall|j: int| at < j < pairs.len() ==> (#[trigger] pairs[j]).0 != pairs[at].0
}

/// The table of a run of entries holds the tokens that the entries name, and
/// for each of them the bias of the last entry that names it.
pub proof fn lemma_last_entry_wins(pairs: Seq<BiasPair>)
    ensures
        forall|id: TokenId| #[trigger] table_of(pairs).contains_key(id) <==> has_token(pairs, id),
        forall|at: int|
            0 <= at < pairs.len() && #[trigger] is_last_of(pairs, at) ==> table_of(pairs)[pairs[at].0]
                == pairs[at].1,
    decreases pairs.len(),
{
    if pairs.len() > 0 {
        let init = pairs.drop_last();
        let last = pairs.last();
        lemma_last_entry_wins(init);
        assert forall|id: TokenId| #[trigger]
            table_of(pairs).contains_key(id) <==> has_token(pairs, id) by {
            assert(table_of(pairs) == table_of(init).insert(last.0, last.1));
            if id == last.0 {
                assert(pairs[pairs.len() - 1].0 == id);
            } else {
                assert(table_of(pairs).contains_key(id) == table_of(init).contains_key(id));
                assert(table_of(init).contains_key(id) <==> has_token(init, id));
                if has_token(init, id) {
                    let i = choose|i: int| 0 <= i < init.len() && (#[trigger] init[i]).0 == id;
                    assert(pairs[i].0 == id);
                }
                if has_token(pairs, id) {
                    let i = choose|i: int| 0 <= i < pairs.len() && (#[trigger] pairs[i]).0 == id;
                    assert(i < pairs.len() - 1);
                    assert(init[i] == pairs[i]);
                    assert(init[i].0 == id);
                }
            }
        }
        assert forall|at: int| 0 <= at < pairs.len() && #[trigger] is_last_of(pairs, at) implies table_of(
            pairs,
        )[pairs[at].0] == pairs[at].1 by {
            if at < pairs.len() - 1 {
                assert(pairs[pairs.len() - 1].0 != pairs[at].0);
                assert(init[at] == pairs[at]);
                assert forall|j: int| at < j < init.len() implies (#[trigger] init[j]).0
                    != init[at].0 by {
                    assert(pairs[j].0 != pairs[at].0);
                }
                assert(is_last_of(init, at));
            }
        }
    }
}

/// Writing an entry into a run, before entries that are all for other
/// tokens, writes it into the table.
proof fn lemma_table_insert(pairs: Seq<BiasPair>, at: int, pair: BiasPair)
    requires
        0 <= at <= pairs.len(),
        forall|j: int| at <= j < pairs.len() ==> (#[trigger] pairs[j]).0 != pair.0,
    ensures
        table_of(pairs.insert(at, pair)) == table_of(pairs).insert(pair.0, pair.1),
    decreases pairs.len() - at,
{
    let longer = pairs.insert(at, pair);
    if at == pairs.len() {
        assert(longer.drop_last() == pairs);
    } else {
        let init = pairs.drop_last();
        let last = pairs.last();
        assert(pairs[pairs.len() - 1].0 != pair.0);
        assert forall|j: int| at <= j < init.len() implies (#[trigger] init[j]).0 != pair.0 by {
            assert(init[j] == pairs[j]);
        }
        lemma_table_insert(init, at, pair);
        assert(longer.drop_last() == init.insert(at, pair));
        assert(longer.last() == last);
        assert(table_of(init).insert(pair.0, pair.1).insert(last.0, last.1) == table_of(
            init,
        ).insert(last.0, last.1).insert(pair.0, pair.1));
    }
}

/// Replacing an entry by one for the same token, where no later entry is for
/// that token, writes the new entry into the table.
proof fn lemma_table_update(pairs: Seq<BiasPair>, at: int, pair: BiasPair)
    requires
        0 <= at < pairs.len(),
        pairs[at].0 == pair.0,
        forall|j: int| at < j < pairs.len() ==> (#[trigger] pairs[j]).0 != pair.0,
    ensures
        table_of(pairs.update(at, pair)) == table_of(pairs).insert(pair.0, pair.1),
    decreases pairs.len() - at,
{
    let changed = pairs.update(at, pair);
    let init = pairs.drop_last();
    let last = pairs.last();
    if at == pairs.len() - 1 {
        assert(changed.drop_last() == init);
        assert(table_of(init).insert(pair.0, pair.1) == table_of(init).insert(
            last.0,
            last.1,
        ).insert(pair.0, pair.1));
    } else {
        assert(pairs[pairs.len() - 1].0 != pair.0);
        assert forall|j: int| at < j < init.len() implies (#[trigger] init[j]).0 != pair.0 by {
            assert(init[j] == pairs[j]);
        }
        lemma_table_update(init, at, pair);
        assert(changed.drop_last() == init.update(at, pair));
        assert(changed.last() == last);
        assert(table_of(init).insert(pair.0, pair.1).insert(last.0, last.1) == table_of(
            init,
        ).insert(last.0, last.1).insert(pair.0, pair.1));
    }
}

/// A table of token biases. It holds one bias for each of its tokens.
#[derive(Debug)]
pub struct TokenBias {
    entries: Vec<(TokenId, Decimal)>,
}

impl View for TokenBias {
    type V = Map<TokenId, Seq<char>>;

    /// The table as a map from each token to the characters of its bias.
    open spec fn view(&self) -> Map<TokenId, Seq<char>> {
        table_of(self.entries())
    }
}

impl TokenBias {
    /// The entries of the table, in the order in which it holds them.
    pub closed spec fn entries(&self) -> Seq<BiasPair> {
        pairs_of(self.entries@)
    }

    /// The order and the validity that every table has: its tokens rise from
    /// entry to entry, and every bias is a decimal.
    pub open spec fn is_canonical(&self) -> bool {
        is_ascending(self.entries()) && has_decimals(self.entries())
    }

    #[verifier::type_invariant]
    closed spec fn well_formed(&self) -> bool {
        self.is_canonical()
    }

    /// The empty table.
    pub fn empty() -> (table: TokenBias)
        ensures
            table@ == Map::<TokenId, Seq<char>>::empty(),
            table.entries() == Seq::<BiasPair>::empty(),
            table.is_canonical(),
    {
        let table = TokenBias { entries: Vec::new() };
        assert(table.entries() == Seq::<BiasPair>::empty());
        table
    }

    /// The number of entries.
    pub fn len(&self) -> (n: usize)
        ensures
            n == self.entries().len(),
            n == self@.len(),
            self@.dom().finite(),
            self.is_canonical(),
    {
        proof {
            use_type_invariant(self);
            lemma_ascending_len(self.entries());
        }
        self.entries.len()
    }

    /// The entry at `at`, counted from zero in rising order of the tokens:
    /// its token and its bias. There is none at or beyond `len()`.
    pub fn entry(&self, at: usize) -> (out: Option<(TokenId, &Decimal)>)
        ensures
            out is Some <==> at < self.entries().len(),
            out matches Some(entry) ==> entry.0 == self.entries()[at as int].0 && entry.1@
                == self.entries()[at as int].1,
    {
        if at < self.entries.len() {
            Some((self.entries[at].0, &self.entries[at].1))
        } else {
            None
        }
    }

    /// Where the entry for `id` stands, or would have to stand.
    fn position(&self, id: TokenId) -> (at: usize)
        ensures
            at <= self.entries().len(),
            forall|j: int| 0 <= j < at ==> (#[trigger] self.entries()[j]).0 < id,
            forall|j: int| at <= j < self.entries().len() ==> (#[trigger] self.entries()[j]).0 >= id,
    {
        proof {
            use_type_invariant(self);
        }
        let mut at: usize = 0;
        while at < self.entries.len() && self.entries[at].0 < id
            invariant
                0 <= at <= self.entries().len(),
                self.entries().len() == self.entries@.len(),
                forall|j: int| 0 <= j < at ==> (#[trigger] self.entries()[j]).0 < id,
                forall|j: int|
                    0 <= j < self.entries().len() ==> (#[trigger] self.entries()[j]).0
                        == self.entries@[j].0,
            decreases self.entries().len() - at,
        {
            at += 1;
        }
        assert forall|j: int| at <= j < self.entries().len() implies (#[trigger] self.entries()[j]).0
            >= id by {
            if at < j {
                assert(self.entries()[at as int].0 < self.entries()[j].0);
            }
        }
        at
    }

    /// The bias of `id`, if the table holds one.
    pub fn get(&self, id: TokenId) -> (out: Option<&Decimal>)
        ensures
            out is Some <==> self@.contains_key(id),
            out matches Some(bias) ==> bias@ == self@[id],
    {
        let at = self.position(id);
        proof {
            use_type_invariant(self);
            lemma_last_entry_wins(self.entries());
        }
        if at < self.entries.len() && self.entries[at].0 == id {
            proof {
                let pairs = self.entries();
                assert(pairs[at as int].0 == id);
                assert(is_last_of(pairs, at as int));
            }
            Some(&self.entries[at].1)
        } else {
            proof {
                let pairs = self.entries();
                if has_token(pairs, id) {
                    let i = choose|i: int| 0 <= i < pairs.len() && (#[trigger] pairs[i]).0 == id;
                    if i < at {
                        assert(pairs[i].0 < id);
                    } else {
                        assert(pairs[at as int].0 == self.entries@[at as int].0);
                        assert(pairs[at as int].0 >= id);
                        if i > at {
                            assert(pairs[at as int].0 < pairs[i].0);
                        }
                    }
                    assert(false);
                }
            }
            None
        }
    }

    /// Writes `bias` as the bias of `id`, in place of the one that `id` had,
    /// if it had one.
    pub fn set(&mut self, id: TokenId, bias: Decimal)
        ensures
            final(self)@ == old(self)@.insert(id, bias@),
            final(self).is_canonical(),
    {
        let at = self.position(id);
        let ghost before = self.entries();
        let ghost pair: BiasPair = (id, bias@);
        proof {
            use_type_invariant(&*self);
        }
        // Every literal is a decimal; its text says so.
        let _ = bias.as_str();
        let mut entries: Vec<(TokenId, Decimal)> = Vec::new();
        std::mem::swap(&mut self.entries, &mut entries);
        assert(pairs_of(entries@) == before);
        if at < entries.len() && entries[at].0 == id {
            entries.set(at, (id, bias));
            proof {
                assert(pairs_of(entries@) == before.update(at as int, pair));
                assert forall|j: int| at < j < before.len() implies (#[trigger] before[j]).0
                    != pair.0 by {
                    assert(before[at as int].0 < before[j].0);
                }
                lemma_table_update(before, at as int, pair);
            }
        } else {
            proof {
                assert forall|j: int| at <= j < before.len() implies (#[trigger] before[j]).0
                    != pair.0 by {
                    assert(before[at as int].0 == entries@[at as int].0);
                    if at < j {
                        assert(before[at as int].0 < before[j].0);
                    }
                }
            }
            entries.insert(at, (id, bias));
            proof {
                assert(pairs_of(entries@) == before.insert(at as int, pair));
                lemma_table_insert(before, at as int, pair);
            }
        }
        std::mem::swap(&mut self.entries, &mut entries);
    }
}

/// A segment that is wrong stays the first wrong one when more segments
/// follow.
proof fn lemma_error_stays(segments: Seq<Seq<char>>, more: Seq<Seq<char>>)
    requires
        parsed_segments(segments) is Err,
    ensures
        parsed_segments(segments + more) == parsed_segments(segments),
    decreases more.len(),
{
    if more.len() == 0 {
        assert(segments + more == segments);
    } else {
        lemma_error_stays(segments, more.drop_last());
        assert((segments + more).drop_last() == segments + more.drop_last());
    }
}

/// Reads one segment.
fn parse_segment(segment: &[char]) -> (out: Result<(TokenId, Decimal), ParseErrorKind>)
    ensures
        match parsed_segment(segment@) {
            Ok(pair) => out matches Ok(entry) && entry.0 == pair.0 && entry.1@ == pair.1,
            Err(kind) => out matches Err(found) && found == kind,
        },
{
    let equals = find_first(segment, '=', '=');
    assert(set!['=', '='] == set!['=']);
    if equals >= segment.len() {
        return Err(ParseErrorKind::MissingEquals);
    }
    let id = match token_id_from(&segment[0..equals]) {
        Some(id) => id,
        None => {
            return Err(ParseErrorKind::InvalidTokenId);
        },
    };
    match Decimal::from_chars(&segment[equals + 1..segment.len()]) {
        Some(bias) => Ok((id, bias)),
        None => Err(ParseErrorKind::InvalidBias),
    }
}

impl Clone for TokenBias {
    fn clone(&self) -> (copy: Self)
        ensures
            copy@ == self@,
            copy.entries() == self.entries(),
            copy.is_canonical(),
    {
        proof {
            use_type_invariant(self);
        }
        let mut entries: Vec<(TokenId, Decimal)> = Vec::new();
        let mut i: usize = 0;
        while i < self.entries.len()
            invariant
                0 <= i <= self.entries@.len(),
                pairs_of(entries@) == pairs_of(self.entries@).take(i as int),
            decreases self.entries@.len() - i,
        {
            let bias = self.entries[i].1.clone();
            let ghost before = entries@;
            entries.push((self.entries[i].0, bias));
            i += 1;
            proof {
                let pair: BiasPair = (self.entries@[i - 1].0, self.entries@[i - 1].1@);
                assert(pairs_of(entries@) == pairs_of(before).push(pair));
                assert(pairs_of(self.entries@).take(i as int) == pairs_of(self.entries@).take(
                    i - 1,
                ).push(pair));
            }
        }
        assert(pairs_of(self.entries@).take(i as int) == pairs_of(self.entries@));
        TokenBias { entries }
    }
}

impl Default for TokenBias {
    fn default() -> (table: Self)
        ensures
            table@ == Map::<TokenId, Seq<char>>::empty(),
    {
        TokenBias::empty()
    }
}

impl TokenBias {
    /// The table that the entries of `pairs` make, written one after the
    /// other: of two entries for one token the later one stays.
    pub fn new(pairs: Vec<(TokenId, Decimal)>) -> (table: TokenBias)
        ensures
            table@ == table_of(pairs_of(pairs@)),
            table.is_canonical(),
    {
        let mut table = TokenBias::empty();
        let mut i: usize = 0;
        while i < pairs.len()
            invariant
                0 <= i <= pairs@.len(),
                table@ == table_of(pairs_of(pairs@).take(i as int)),
                table.is_canonical(),
            decreases pairs@.len() - i,
        {
            let bias = pairs[i].1.clone();
            table.set(pairs[i].0, bias);
            i += 1;
            proof {
                let upto = pairs_of(pairs@).take(i as int);
                assert(upto.drop_last() == pairs_of(pairs@).take(i - 1));
                assert(upto.last() == (pairs@[i - 1].0, pairs@[i - 1].1@));
            }
        }
        assert(pairs_of(pairs@).take(i as int) == pairs_of(pairs@));
        table
    }

    /// The table that keeps the token `eos` from being chosen: its one entry
    /// gives `eos` the bias `-1.0`.
    pub fn suppressing(eos: TokenId) -> (table: TokenBias)
        ensures
            table@ == map![eos => seq!['-', '1', '.', '0']],
            table.is_canonical(),
    {
        let mut table = TokenBias::empty();
        table.set(eos, Decimal::minus_one());
        assert(table@ == map![eos => seq!['-', '1', '.', '0']]);
        table
    }

    /// Reads a bias list: nothing at all, or entries of the form
    /// `token=bias` with commas between them. Gives the table that the entries
    /// make, or the first segment that is wrong.
    pub fn parse(text: &str) -> (out: Result<TokenBias, ParseError>)
        ensures
            match parsed_bias(text@) {
                Ok(table) => out matches Ok(parsed) && parsed@ == table && parsed.is_canonical(),
                Err(error) => out matches Err(found) && found == error,
            },
    {
        let chars = chars_of(text);
        let all = chars.as_slice();
        let mut table = TokenBias::empty();
        if all.len() == 0 {
            return Ok(table);
        }
        let mut start: usize = 0;
        let mut index: usize = 0;
        let ghost mut done: Seq<Seq<char>> = Seq::empty();
        let ghost mut pairs: Seq<BiasPair> = Seq::empty();
        assert(all@.skip(0) == all@);
        assert(done + segments(all@.skip(0)) == segments(all@));
        loop
            invariant
                all@ == text@,
                all@.len() > 0,
                0 <= start <= all@.len(),
                index == done.len(),
                index <= start,
                segments(all@) == done + segments(all@.skip(start as int)),
                parsed_segments(done) == Ok::<Seq<BiasPair>, ParseError>(pairs),
                table@ == table_of(pairs),
                table.is_canonical(),
            decreases all@.len() - start,
        {
            let rest = &all[start..all.len()];
            assert(rest@ == all@.skip(start as int));
            let comma = find_first(rest, ',', ',');
            assert(set![',', ','] == set![',']);
            let segment = &rest[0..comma];
            assert(segment@ == rest@.take(comma as int));
            let ghost more = if comma < rest@.len() {
                segments(rest@.skip(comma + 1))
            } else {
                Seq::<Seq<char>>::empty()
            };
            proof {
                if comma >= rest@.len() {
                    assert(segment@ == rest@);
                }
                assert(segments(rest@) == seq![segment@] + more);
                assert(done + (seq![segment@] + more) == done.push(segment@) + more);
                assert(done.push(segment@).drop_last() == done);
            }
            match parse_segment(segment) {
                Err(kind) => {
                    proof {
                        lemma_error_stays(done.push(segment@), more);
                    }
                    return Err(ParseError { segment: index, kind });
                },
                Ok(entry) => {
                    proof {
                        let pair: BiasPair = (entry.0, entry.1@);
                        assert(pairs.push(pair).drop_last() == pairs);
                        assert(parsed_segments(done.push(segment@)) == Ok::<
                            Seq<BiasPair>,
                            ParseError,
                        >(pairs.push(pair)));
                        pairs = pairs.push(pair);
                        done = done.push(segment@);
                    }
                    table.set(entry.0, entry.1);
                },
            }
            if comma < rest.len() {
                start = start + comma + 1;
                index = index + 1;
                assert(rest@.skip(comma + 1) == all@.skip(start as int));
            } else {
                proof {
                    assert(done + more == done);
                }
                return Ok(table);
            }
        }
    }
}

impl TokenBias {
    /// The table as a bias list: its entries in rising order of
    /// their tokens, each as `token=bias`, with commas between them. Reading
    /// the text gives the table back.
    pub fn to_text(&self) -> (text: String)
        ensures
            text@ == rendered(self.entries()),
            parsed_bias(text@) == Ok::<Map<TokenId, Seq<char>>, ParseError>(self@),
            self.is_canonical(),
    {
        proof {
            use_type_invariant(self);
            lemma_parse_rendered(self.entries());
        }
        let mut text = String::new();
        let mut i: usize = 0;
        assert(self.entries().take(0) == Seq::<BiasPair>::empty());
        while i < self.entries.len()
            invariant
                0 <= i <= self.entries@.len(),
                self.entries().len() == self.entries@.len(),
                text@ == rendered(self.entries().take(i as int)),
            decreases self.entries@.len() - i,
        {
            let ghost before = text@;
            if i > 0 {
                text.push(',');
            }
            push_number(&mut text, self.entries[i].0);
            text.push('=');
            push_text(&mut text, self.entries[i].1.as_str());
            i += 1;
            proof {
                let upto = self.entries().take(i as int);
                let pair = self.entries()[i - 1];
                assert(upto.drop_last() == self.entries().take(i - 1));
                assert(upto.last() == pair);
                assert(pair == (self.entries@[i - 1].0, self.entries@[i - 1].1@));
                if i > 1 {
                    assert(text@ == before + seq![','] + rendered_pair(pair));
                } else {
                    assert(text@ == rendered_pair(pair));
                }
            }
        }
        assert(self.entries().take(i as int) == self.entries());
        text
    }
}

/// A text without a comma is one segment.
proof fn lemma_one_segment(text: Seq<char>)
    requires
        forall|i: int| 0 <= i < text.len() ==> #[trigger] text[i] != ',',
    ensures
        segments(text) == seq![text],
{
    lemma_first_in_is(text, set![','], text.len() as int);
}

/// A comma and a text without commas, put behind a text, add one segment.
proof fn lemma_segments_append(head: Seq<char>, tail: Seq<char>)
    requires
        forall|i: int| 0 <= i < tail.len() ==> #[trigger] tail[i] != ',',
    ensures
        segments(head + seq![','] + tail) == segments(head).push(tail),
    decreases head.len(),
{
    let whole = head + seq![','] + tail;
    let comma = first_in(head, set![',']);
    lemma_first_in(head, set![',']);
    if comma < head.len() {
        assert forall|i: int| 0 <= i < comma implies !set![','].contains(#[trigger] whole[i]) by {
            assert(whole[i] == head[i]);
        }
        assert(whole[comma] == head[comma]);
        lemma_first_in_is(whole, set![','], comma);
        assert(whole.take(comma) == head.take(comma));
        assert(whole.skip(comma + 1) == head.skip(comma + 1) + seq![','] + tail);
        lemma_segments_append(head.skip(comma + 1), tail);
        assert(seq![head.take(comma)] + segments(head.skip(comma + 1)).push(tail) == (seq![
            head.take(comma),
        ] + segments(head.skip(comma + 1))).push(tail));
    } else {
        assert forall|i: int| 0 <= i < head.len() implies !set![','].contains(
            #[trigger] whole[i],
        ) by {
            assert(whole[i] == head[i]);
        }
        assert(whole[head.len() as int] == ',');
        lemma_first_in_is(whole, set![','], head.len() as int);
        assert(whole.take(head.len() as int) == head);
        assert(whole.skip(head.len() as int + 1) == tail);
        lemma_one_segment(tail);
        assert(seq![head] + seq![tail] == seq![head].push(tail));
    }
}

/// The text of an entry holds no comma, and reads as the entry.
proof fn lemma_rendered_pair(pair: BiasPair)
    requires
        is_decimal(pair.1),
    ensures
        rendered_pair(pair).len() >= 1,
        forall|i: int| 0 <= i < rendered_pair(pair).len() ==> #[trigger] rendered_pair(pair)[i] != ',',
        parsed_segment(rendered_pair(pair)) == Ok::<BiasPair, ParseErrorKind>(pair),
{
    let digits = digits_of(pair.0 as nat);
    let text = rendered_pair(pair);
    lemma_digits_of(pair.0 as nat);
    lemma_decimal_chars(pair.1);
    assert forall|i: int| 0 <= i < text.len() implies #[trigger] text[i] != ',' by {
        if i < digits.len() {
            assert(text[i] == digits[i]);
        } else if i > digits.len() {
            assert(text[i] == pair.1[i - digits.len() - 1]);
            assert(is_decimal_char(pair.1[i - digits.len() - 1]));
        }
    }
    assert forall|i: int| 0 <= i < digits.len() implies !set!['='].contains(#[trigger] text[i]) by {
        assert(text[i] == digits[i]);
    }
    assert(text[digits.len() as int] == '=');
    lemma_first_in_is(text, set!['='], digits.len() as int);
    assert(text.take(digits.len() as int) == digits);
    assert(text.skip(digits.len() as int + 1) == pair.1);
}

/// The segments of the text of a run of entries are the texts of the entries.
proof fn lemma_rendered_segments(pairs: Seq<BiasPair>)
    requires
        has_decimals(pairs),
        pairs.len() >= 1,
    ensures
        rendered(pairs).len() >= 1,
        segments(rendered(pairs)) == pairs.map_values(|pair: BiasPair| rendered_pair(pair)),
    decreases pairs.len(),
{
    let last = pairs.last();
    assert(is_decimal(pairs[pairs.len() - 1].1));
    lemma_rendered_pair(last);
    if pairs.len() == 1 {
        lemma_one_segment(rendered_pair(last));
        assert(seq![rendered_pair(last)] == pairs.map_values(
            |pair: BiasPair| rendered_pair(pair),
        ));
    } else {
        let init = pairs.drop_last();
        assert forall|i: int| 0 <= i < init.len() implies is_decimal((#[trigger] init[i]).1) by {
            assert(init[i] == pairs[i]);
        }
        lemma_rendered_segments(init);
        lemma_segments_append(rendered(init), rendered_pair(last));
        assert(init.map_values(|pair: BiasPair| rendered_pair(pair)).push(rendered_pair(last))
            == pairs.map_values(|pair: BiasPair| rendered_pair(pair)));
    }
}

/// The texts of a run of entries read as the entries.
proof fn lemma_parsed_rendered(pairs: Seq<BiasPair>)
    requires
        has_decimals(pairs),
    ensures
        parsed_segments(pairs.map_values(|pair: BiasPair| rendered_pair(pair))) == Ok::<
            Seq<BiasPair>,
            ParseError,
        >(pairs),
    decreases pairs.len(),
{
    let texts = pairs.map_values(|pair: BiasPair| rendered_pair(pair));
    if pairs.len() == 0 {
        assert(pairs == Seq::<BiasPair>::empty());
    } else {
        let init = pairs.drop_last();
        assert forall|i: int| 0 <= i < init.len() implies is_decimal((#[trigger] init[i]).1) by {
            assert(init[i] == pairs[i]);
        }
        lemma_parsed_rendered(init);
        assert(texts.drop_last() == init.map_values(|pair: BiasPair| rendered_pair(pair)));
        assert(is_decimal(pairs[pairs.len() - 1].1));
        lemma_rendered_pair(pairs.last());
        assert(texts.last() == rendered_pair(pairs.last()));
        assert(init.push(pairs.last()) == pairs);
    }
}

/// Writing a run of entries as text and reading the text gives the table of
/// the entries: for each token the bias of the last entry that names it.
pub proof fn lemma_parse_rendered(pairs: Seq<BiasPair>)
    requires
        has_decimals(pairs),
    ensures
        parsed_bias(rendered(pairs)) == Ok::<Map<TokenId, Seq<char>>, ParseError>(table_of(pairs)),
{
    if pairs.len() >= 1 {
        lemma_rendered_segments(pairs);
        lemma_parsed_rendered(pairs);
    }
}

/// Reading a bias list, writing the table as text and reading that text
/// gives the table of the first reading: each token keeps the bias of the
/// last segment that named it.
pub proof fn lemma_reading_again(text: Seq<char>, table: TokenBias)
    requires
        parsed_bias(text) == Ok::<Map<TokenId, Seq<char>>, ParseError>(table@),
        table.is_canonical(),
    ensures
        parsed_bias(rendered(table.entries())) == parsed_bias(text),
{
    lemma_parse_rendered(table.entries());
}

/// In the table of a bias list, a token has the bias of the last
/// segment that names it.
pub proof fn lemma_last_segment_wins(text: Seq<char>, at: int)
    requires
        text.len() > 0,
        parsed_segments(segments(text)) is Ok,
        0 <= at < parsed_segments(segments(text))->Ok_0.len(),
        is_last_of(parsed_segments(segments(text))->Ok_0, at),
    ensures
        parsed_bias(text) is Ok,
        parsed_bias(text)->Ok_0.contains_key(parsed_segments(segments(text))->Ok_0[at].0),
        parsed_bias(text)->Ok_0[parsed_segments(segments(text))->Ok_0[at].0] == parsed_segments(
            segments(text),
        )->Ok_0[at].1,
{
    let pairs = parsed_segments(segments(text))->Ok_0;
    lemma_last_entry_wins(pairs);
    assert(has_token(pairs, pairs[at].0));
}

/// A run of entries in rising order has as many entries as its table.
proof fn lemma_ascending_len(pairs: Seq<BiasPair>)
    requires
        is_ascending(pairs),
    ensures
        table_of(pairs).dom().finite(),
        table_of(pairs).len() == pairs.len(),
    decreases pairs.len(),
{
    if pairs.len() > 0 {
        let init = pairs.drop_last();
        lemma_ascending_len(init);
        lemma_last_entry_wins(init);
        if has_token(init, pairs.last().0) {
            let i = choose|i: int| 0 <= i < init.len() && (#[trigger] init[i]).0 == pairs.last().0;
            assert(pairs[i].0 < pairs[pairs.len() - 1].0);
        }
    }
}

} // verus!
