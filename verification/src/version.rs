//! Release identifiers read as numeric triples.
//!
//! An identifier is an opaque string everywhere except in a listing, where it
//! is read as `major.minor.patch` so that newer releases can come first.

use crate::text::{texts, to_chars};
use vstd::prelude::*;

verus! {

/// Whether `c` is one of the ten ASCII digits.
pub open spec fn is_digit(c: char) -> bool {
    '0' <= c && c <= '9'
}

/// The value of a digit, and zero for any other character.
pub open spec fn digit_value(c: char) -> nat {
    if is_digit(c) {
        (c as u32 - '0' as u32) as nat
    } else {
        0
    }
}

/// The number that a run of digits denotes in base ten; zero for the empty run.
pub open spec fn decimal_value(digits: Seq<char>) -> nat
    decreases digits.len(),
{
    if digits.len() == 0 {
        0
    } else {
        decimal_value(digits.drop_last()) * 10 + digit_value(digits.last())
    }
}

/// What is left of a field once a leading `+` sign, if any, is taken away.
pub open spec fn unsigned_part(field: Seq<char>) -> Seq<char> {
    if field.len() > 0 && field[0] == '+' {
        field.skip(1)
    } else {
        field
    }
}

/// The number written in `field`: an optional `+`, then one or more digits
/// whose value fits in 32 bits. Anything else is no number.
pub open spec fn number_of(field: Seq<char>) -> Option<u32> {
    let digits = unsigned_part(field);
    if digits.len() > 0 && (forall|i: int| 0 <= i < digits.len() ==> is_digit(#[trigger] digits[i]))
        && decimal_value(digits) <= u32::MAX {
        Some(decimal_value(digits) as u32)
    } else {
        None
    }
}

/// The pieces of `s` between its dots. A string without a dot is one piece;
/// a dot at either end borders an empty piece.
pub open spec fn fields(s: Seq<char>) -> Seq<Seq<char>>
    decreases s.len(),
{
    if s.len() == 0 {
        seq![Seq::<char>::empty()]
    } else if s.last() == '.' {
        fields(s.drop_last()).push(Seq::<char>::empty())
    } else {
        let before = fields(s.drop_last());
        before.drop_last().push(before.last().push(s.last()))
    }
}

/// The `(major, minor, patch)` triple that an identifier denotes: exactly
/// three dot-separated numbers. Every other string denotes none.
pub open spec fn version_of(s: Seq<char>) -> Option<(u32, u32, u32)> {
    let parts = fields(s);
    if parts.len() == 3 && number_of(parts[0]) is Some && number_of(parts[1]) is Some && number_of(
        parts[2],
    ) is Some {
        Some((number_of(parts[0])->0, number_of(parts[1])->0, number_of(parts[2])->0))
    } else {
        None
    }
}

/// The pieces put together again, with a dot between neighbours.
pub open spec fn dotted(parts: Seq<Seq<char>>) -> Seq<char>
    decreases parts.len(),
{
    if parts.len() == 0 {
        Seq::empty()
    } else if parts.len() == 1 {
        parts[0]
    } else {
        dotted(parts.drop_last()) + seq!['.'] + parts.last()
    }
}

/// Splitting at the dots loses nothing and leaves no dot behind: there is
/// at least one piece, no piece holds a dot, and the pieces joined by dots
/// are the string again.
pub proof fn lemma_fields_rejoin(s: Seq<char>)
    ensures
        fields(s).len() >= 1,
        dotted(fields(s)) == s,
        forall|k: int| 0 <= k < fields(s).len() ==> !(#[trigger] fields(s)[k]).contains('.'),
    decreases s.len(),
{
    if s.len() == 0 {
        assert(dotted(fields(s)) =~= s);
    } else {
        let before = fields(s.drop_last());
        let after = fields(s);
        lemma_fields_rejoin(s.drop_last());
        if s.last() == '.' {
            assert(after.drop_last() =~= before);
            assert(dotted(after) =~= s);
            assert forall|k: int| 0 <= k < after.len() implies !(#[trigger] after[k]).contains(
                '.',
            ) by {
                if k < before.len() {
                    assert(after[k] == before[k]);
                }
            }
        } else {
            let grown = before.last().push(s.last());
            assert(after.last() == grown);
            assert(s.drop_last().push(s.last()) =~= s);
            if before.len() == 1 {
                assert(dotted(after) == grown);
            } else {
                assert(after.drop_last() =~= before.drop_last());
                assert(dotted(after) =~= dotted(before).push(s.last()));
            }
            assert forall|k: int| 0 <= k < after.len() implies !(#[trigger] after[k]).contains(
                '.',
            ) by {
                if k < before.len() - 1 {
                    assert(after[k] == before[k]);
                } else {
                    if grown.contains('.') {
                        let i = choose|i: int| 0 <= i < grown.len() && grown[i] == '.';
                        assert(before.last()[i] == '.');
                        assert(before[before.len() - 1].contains('.'));
                    }
                }
            }
        }
    }
}

/// A longer run of characters never denotes less than one of its prefixes.
proof fn lemma_decimal_value_grows(digits: Seq<char>, k: int)
    requires
        0 <= k <= digits.len(),
    ensures
        decimal_value(digits.take(k)) <= decimal_value(digits),
    decreases digits.len() - k,
{
    if k == digits.len() {
        assert(digits.take(k) =~= digits);
    } else {
        lemma_decimal_value_grows(digits, k + 1);
        assert(digits.take(k + 1).drop_last() =~= digits.take(k));
    }
}

/// Reads the number written in `chars[from..to]`.
fn parse_number(chars: &Vec<char>, from: usize, to: usize) -> (number: Option<u32>)
    requires
        from <= to <= chars.len(),
    ensures
        number == number_of(chars@.subrange(from as int, to as int)),
{
    let ghost field = chars@.subrange(from as int, to as int);
    let mut i: usize = from;
    if i < to && chars[i] == '+' {
        i += 1;
    }
    let start: usize = i;
    let ghost digits = chars@.subrange(start as int, to as int);
    assert(digits =~= unsigned_part(field));
    if i == to {
        return None;
    }
    let mut value: u64 = 0;
    while i < to
        invariant
            from <= start <= i <= to <= chars.len(),
            digits == chars@.subrange(start as int, to as int),
            digits == unsigned_part(chars@.subrange(from as int, to as int)),
            forall|k: int| 0 <= k < i - start ==> is_digit(#[trigger] digits[k]),
            value == decimal_value(digits.take(i - start)),
            value <= u32::MAX,
        decreases to - i,
    {
        let c = chars[i];
        assert(c == digits[i - start]);
        if !('0' <= c && c <= '9') {
            assert(!is_digit(digits[i - start]));
            return None;
        }
        let digit: u64 = (c as u32 - '0' as u32) as u64;
        assert(digits.take(i - start + 1).drop_last() =~= digits.take(i - start));
        value = value * 10 + digit;
        if value > u32::MAX as u64 {
            proof {
                lemma_decimal_value_grows(digits, i - start + 1);
            }
            return None;
        }
        i += 1;
    }
    assert(digits.take(i - start) =~= digits);
    Some(value as u32)
}

/// Where each piece of `chars` begins and ends, as half-open index ranges.
fn field_bounds(chars: &Vec<char>) -> (bounds: Vec<(usize, usize)>)
    ensures
        bounds@.len() == fields(chars@).len(),
        forall|k: int|
            0 <= k < bounds@.len() ==> {
                &&& (#[trigger] bounds@[k]).0 <= bounds@[k].1 <= chars@.len()
                &&& chars@.subrange(bounds@[k].0 as int, bounds@[k].1 as int) == fields(chars@)[k]
            },
{
    let mut bounds: Vec<(usize, usize)> = Vec::new();
    bounds.push((0, 0));
    assert(chars@.take(0).subrange(0, 0) =~= Seq::<char>::empty());
    let mut i: usize = 0;
    while i < chars.len()
        invariant
            i <= chars.len(),
            bounds@.len() == fields(chars@.take(i as int)).len(),
            bounds@.len() > 0,
            bounds@.last().1 == i,
            forall|k: int|
                0 <= k < bounds@.len() ==> {
                    &&& (#[trigger] bounds@[k]).0 <= bounds@[k].1 <= i
                    &&& chars@.subrange(bounds@[k].0 as int, bounds@[k].1 as int) == fields(
                        chars@.take(i as int),
                    )[k]
                },
        decreases chars.len() - i,
    {
        let ghost seen = chars@.take(i as int);
        let ghost next = chars@.take(i + 1);
        assert(next.drop_last() =~= seen);
        assert(next.last() == chars@[i as int]);
        let ghost before = fields(seen);
        if chars[i] == '.' {
            bounds.push((i + 1, i + 1));
            assert(chars@.subrange(i + 1, i + 1) =~= Seq::<char>::empty());
        } else {
            let last: usize = bounds.len() - 1;
            let open = bounds[last];
            bounds.set(last, (open.0, i + 1));
            assert(chars@.subrange(open.0 as int, i + 1) =~= before.last().push(chars@[i as int]));
        }
        i += 1;
    }
    assert(chars@.take(i as int) =~= chars@);
    bounds
}

/// Reads an identifier as its `(major, minor, patch)` triple.
///
/// Succeeds exactly on three dot-separated numbers, each an optional `+`
/// followed by digits and no larger than `u32::MAX`.
pub fn split_version(s: &str) -> (triple: Option<(u32, u32, u32)>)
    ensures
        triple == version_of(s@),
{
    let chars = to_chars(s);
    let bounds = field_bounds(&chars);
    if bounds.len() != 3 {
        return None;
    }
    let major = parse_number(&chars, bounds[0].0, bounds[0].1);
    let minor = parse_number(&chars, bounds[1].0, bounds[1].1);
    let patch = parse_number(&chars, bounds[2].0, bounds[2].1);
    match (major, minor, patch) {
        (Some(a), Some(b), Some(c)) => Some((a, b, c)),
        _ => None,
    }
}

/// Whether triple `a` is greater than `b`: by major, then minor, then patch.
pub open spec fn triple_exceeds(a: (u32, u32, u32), b: (u32, u32, u32)) -> bool {
    a.0 > b.0 || (a.0 == b.0 && (a.1 > b.1 || (a.1 == b.1 && a.2 > b.2)))
}

/// Whether identifier `a` denotes a strictly newer release than `b`.
/// Identifiers that denote no triple are neither newer nor older.
pub open spec fn is_newer(a: Seq<char>, b: Seq<char>) -> bool {
    version_of(a) is Some && version_of(b) is Some && triple_exceeds(
        version_of(a)->0,
        version_of(b)->0,
    )
}

/// Whether every identifier of `list` denotes a triple.
pub open spec fn all_well_formed(list: Seq<Seq<char>>) -> bool {
    forall|i: int| 0 <= i < list.len() ==> version_of(#[trigger] list[i]) is Some
}

/// Whether `list[k]` is the first identifier of `list` that denotes no triple.
pub open spec fn first_malformed_at(list: Seq<Seq<char>>, k: int) -> bool {
    &&& 0 <= k < list.len()
    &&& version_of(list[k]) is None
    &&& all_well_formed(list.take(k))
}

/// Where `v` goes in a listing that is already newest first: in front of the
/// first entry that `v` is strictly newer than, so behind its equals.
pub open spec fn listing_slot(listed: Seq<Seq<char>>, v: Seq<char>) -> int
    decreases listed.len(),
{
    if listed.len() == 0 || is_newer(v, listed[0]) {
        0
    } else {
        1 + listing_slot(listed.skip(1), v)
    }
}

/// The identifiers of `list` arranged newest first. Identifiers that denote
/// the same triple keep the order they had in `list`.
pub open spec fn newest_first(list: Seq<Seq<char>>) -> Seq<Seq<char>>
    decreases list.len(),
{
    if list.len() == 0 {
        Seq::empty()
    } else {
        let listed = newest_first(list.drop_last());
        listed.insert(listing_slot(listed, list.last()), list.last())
    }
}

/// Compares two triples: by major, then minor, then patch.
pub fn exceeds(a: (u32, u32, u32), b: (u32, u32, u32)) -> (greater: bool)
    ensures
        greater == triple_exceeds(a, b),
{
    a.0 > b.0 || (a.0 == b.0 && (a.1 > b.1 || (a.1 == b.1 && a.2 > b.2)))
}

/// Arranges identifiers newest first, by numeric triple rather than by
/// spelling. Identifiers that denote the same triple keep the order they
/// came in.
///
/// Fails with the position of the first identifier that denotes no triple.
pub fn sort_newest_first(list: &Vec<String>) -> (result: Result<Vec<String>, usize>)
    ensures
        match result {
            Ok(sorted) => all_well_formed(texts(list@)) && texts(sorted@) == newest_first(
                texts(list@),
            ),
            Err(k) => first_malformed_at(texts(list@), k as int),
        },
{
    let ghost all = texts(list@);
    let mut keys: Vec<(u32, u32, u32)> = Vec::new();
    let mut sorted: Vec<String> = Vec::new();
    let mut i: usize = 0;
    assert(texts(sorted@) =~= newest_first(all.take(0)));
    while i < list.len()
        invariant
            i <= list.len(),
            all == texts(list@),
            all_well_formed(all.take(i as int)),
            keys@.len() == sorted@.len(),
            forall|k: int|
                0 <= k < sorted@.len() ==> version_of(#[trigger] texts(sorted@)[k]) == Some(
                    keys@[k],
                ),
            texts(sorted@) == newest_first(all.take(i as int)),
        decreases list.len() - i,
    {
        let ghost listed = texts(sorted@);
        let ghost v = all[i as int];
        assert(all.take(i + 1).drop_last() =~= all.take(i as int));
        assert(all.take(i + 1).last() == v);
        match split_version(list[i].as_str()) {
            None => {
                return Err(i);
            },
            Some(key) => {
                let mut slot: usize = 0;
                let mut found = false;
                assert(listed.skip(0) =~= listed);
                while !found
                    invariant
                        slot <= keys@.len() == listed.len(),
                        version_of(v) == Some(key),
                        forall|k: int|
                            0 <= k < listed.len() ==> version_of(#[trigger] listed[k]) == Some(
                                keys@[k],
                            ),
                        listing_slot(listed, v) == slot + listing_slot(listed.skip(slot as int), v),
                        found ==> listing_slot(listed.skip(slot as int), v) == 0,
                    decreases keys@.len() - slot + (if found { 0int } else { 1int }),
                {
                    if slot == keys.len() || exceeds(key, keys[slot]) {
                        assert(slot < keys@.len() ==> listed.skip(slot as int)[0] == listed[slot as int]);
                        found = true;
                    } else {
                        assert(listed.skip(slot as int)[0] == listed[slot as int]);
                        assert(listed.skip(slot as int).skip(1) =~= listed.skip(slot + 1));
                        slot += 1;
                    }
                }
                keys.insert(slot, key);
                sorted.insert(slot, list[i].clone());
                assert(texts(sorted@) =~= listed.insert(slot as int, v));
                assert forall|k: int| 0 <= k < all.take(i + 1).len() implies version_of(
                    #[trigger] all.take(i + 1)[k],
                ) is Some by {
                    if k < i {
                        assert(all.take(i as int)[k] == all[k]);
                    }
                }
            },
        }
        i += 1;
    }
    assert(all.take(i as int) =~= all);
    Ok(sorted)
}

/// Whether no entry of `listed` is strictly newer than one in front of it.
pub open spec fn is_newest_first(listed: Seq<Seq<char>>) -> bool {
    forall|i: int, j: int| 0 <= i < j < listed.len() ==> !is_newer(listed[j], listed[i])
}

/// The test "denotes exactly the triple `t`", as a predicate on identifiers.
pub open spec fn denotes(t: (u32, u32, u32)) -> spec_fn(Seq<char>) -> bool {
    |v: Seq<char>| version_of(v) == Some(t)
}

/// The slot of `v` lies within the listing, behind every entry that `v` is
/// not newer than, and directly in front of one that it is newer than.
proof fn lemma_listing_slot(listed: Seq<Seq<char>>, v: Seq<char>)
    ensures
        0 <= listing_slot(listed, v) <= listed.len(),
        forall|k: int| 0 <= k < listing_slot(listed, v) ==> !is_newer(v, #[trigger] listed[k]),
        listing_slot(listed, v) < listed.len() ==> is_newer(v, listed[listing_slot(listed, v)]),
    decreases listed.len(),
{
    if listed.len() == 0 || is_newer(v, listed[0]) {
    } else {
        let rest = listed.skip(1);
        lemma_listing_slot(rest, v);
        assert forall|k: int| 0 <= k < listing_slot(listed, v) implies !is_newer(
            v,
            #[trigger] listed[k],
        ) by {
            if k > 0 {
                assert(listed[k] == rest[k - 1]);
            }
        }
        assert(listing_slot(rest, v) < rest.len() ==> rest[listing_slot(rest, v)]
            == listed[listing_slot(listed, v)]);
    }
}

/// A sequence none of whose elements passes a test filters to nothing.
proof fn lemma_filter_rejects_all(s: Seq<Seq<char>>, test: spec_fn(Seq<char>) -> bool)
    requires
        forall|i: int| 0 <= i < s.len() ==> !test(#[trigger] s[i]),
    ensures
        s.filter(test) == Seq::<Seq<char>>::empty(),
    decreases s.len(),
{
    reveal(Seq::filter);
    if s.len() > 0 {
        assert forall|i: int| 0 <= i < s.drop_last().len() implies !test(
            #[trigger] s.drop_last()[i],
        ) by {
            assert(s.drop_last()[i] == s[i]);
        }
        lemma_filter_rejects_all(s.drop_last(), test);
    }
}

/// Listing rearranges and nothing else: every identifier occurs in the
/// listing as often as in the input.
pub proof fn lemma_newest_first_permutes(list: Seq<Seq<char>>)
    ensures
        newest_first(list).len() == list.len(),
        newest_first(list).to_multiset() == list.to_multiset(),
    decreases list.len(),
{
    broadcast use vstd::seq_lib::group_to_multiset_ensures;

    if list.len() == 0 {
        assert(newest_first(list) =~= list);
    } else {
        let v = list.last();
        let listed = newest_first(list.drop_last());
        let slot = listing_slot(listed, v);
        lemma_newest_first_permutes(list.drop_last());
        lemma_listing_slot(listed, v);
        let placed = listed.insert(slot, v);
        assert(placed[slot] == v);
        assert(placed.remove(slot) =~= listed);
        assert(placed.to_multiset().remove(v) == listed.to_multiset());
        assert(placed.contains(v));
        assert(placed.to_multiset() =~= listed.to_multiset().insert(v));
        assert(list.drop_last().push(v) =~= list);
        assert(list.to_multiset() =~= list.drop_last().to_multiset().insert(v));
    }
}

/// A listing of well-formed identifiers runs from newest to oldest: the
/// order is that of the numeric triples, not of the spelling.
pub proof fn lemma_newest_first_descends(list: Seq<Seq<char>>)
    requires
        all_well_formed(list),
    ensures
        all_well_formed(newest_first(list)),
        is_newest_first(newest_first(list)),
    decreases list.len(),
{
    if list.len() > 0 {
        let v = list.last();
        let listed = newest_first(list.drop_last());
        let slot = listing_slot(listed, v);
        assert forall|i: int| 0 <= i < list.drop_last().len() implies version_of(
            #[trigger] list.drop_last()[i],
        ) is Some by {
            assert(list.drop_last()[i] == list[i]);
        }
        lemma_newest_first_descends(list.drop_last());
        lemma_newest_first_permutes(list.drop_last());
        lemma_listing_slot(listed, v);
        let placed = listed.insert(slot, v);
        assert forall|i: int| 0 <= i < placed.len() implies version_of(
            #[trigger] placed[i],
        ) is Some by {
            if i < slot {
                assert(placed[i] == listed[i]);
            } else if i > slot {
                assert(placed[i] == listed[i - 1]);
            }
        }
        assert forall|i: int, j: int| 0 <= i < j < placed.len() implies !is_newer(
            placed[j],
            placed[i],
        ) by {
            if j < slot {
                assert(placed[i] == listed[i] && placed[j] == listed[j]);
            } else if j == slot {
                assert(placed[i] == listed[i]);
            } else if i == slot {
                assert(placed[j] == listed[j - 1]);
                assert(version_of(listed[j - 1]) is Some);
                assert(version_of(listed[slot]) is Some);
                if j - 1 > slot {
                    assert(!is_newer(listed[j - 1], listed[slot]));
                }
            } else if i < slot {
                assert(placed[i] == listed[i] && placed[j] == listed[j - 1]);
            } else {
                assert(placed[i] == listed[i - 1] && placed[j] == listed[j - 1]);
            }
        }
    }
}

/// Listing is stable: the identifiers that denote one and the same triple
/// stand in the listing in the order in which the input had them.
pub proof fn lemma_newest_first_keeps_ties(list: Seq<Seq<char>>, t: (u32, u32, u32))
    requires
        all_well_formed(list),
    ensures
        newest_first(list).filter(denotes(t)) == list.filter(denotes(t)),
    decreases list.len(),
{
    reveal(Seq::filter);
    if list.len() > 0 {
        let test = denotes(t);
        let v = list.last();
        let listed = newest_first(list.drop_last());
        let slot = listing_slot(listed, v);
        assert forall|i: int| 0 <= i < list.drop_last().len() implies version_of(
            #[trigger] list.drop_last()[i],
        ) is Some by {
            assert(list.drop_last()[i] == list[i]);
        }
        lemma_newest_first_keeps_ties(list.drop_last(), t);
        lemma_newest_first_descends(list.drop_last());
        lemma_listing_slot(listed, v);
        let front = listed.take(slot);
        let back = listed.skip(slot);
        let placed = listed.insert(slot, v);
        assert(listed =~= front + back);
        assert(placed =~= front.push(v) + back);
        Seq::filter_distributes_over_add(front, back, test);
        Seq::filter_distributes_over_add(front.push(v), back, test);
        assert(front.push(v).drop_last() =~= front);
        if test(v) {
            assert forall|i: int| 0 <= i < back.len() implies !test(#[trigger] back[i]) by {
                assert(back[i] == listed[slot + i]);
                assert(version_of(listed[slot + i]) is Some);
                assert(version_of(listed[slot]) is Some);
                if i > 0 {
                    assert(!is_newer(listed[slot + i], listed[slot]));
                }
            }
            lemma_filter_rejects_all(back, test);
            assert(placed.filter(test) =~= listed.filter(test).push(v));
        } else {
            assert(placed.filter(test) =~= listed.filter(test));
        }
    }
}

} // verus!
