//! Text operations over characters, with their mathematical definitions.

use vstd::prelude::*;

verus! {

/// The contents of a list of strings.
pub open spec fn strings(list: Seq<String>) -> Seq<Seq<char>> {
    list.map_values(|s: String| s@)
}

/// The parts of `s` between the occurrences of `separator`, in order. There is one part more than
/// there are occurrences, so the empty text has one empty part.
pub open spec fn split(s: Seq<char>, separator: char) -> Seq<Seq<char>>
    decreases s.len(),
{
    if s.len() == 0 {
        seq![Seq::empty()]
    } else {
        let before = split(s.drop_last(), separator);
        if s.last() == separator {
            before.push(Seq::empty())
        } else {
            before.drop_last().push(before.last().push(s.last()))
        }
    }
}

/// The text before and after the first occurrence of `separator`, if it occurs.
pub open spec fn split_once(s: Seq<char>, separator: char) -> Option<(Seq<char>, Seq<char>)>
    decreases s.len(),
{
    if s.len() == 0 {
        None
    } else {
        match split_once(s.drop_last(), separator) {
            Some((head, tail)) => Some((head, tail.push(s.last()))),
            None => if s.last() == separator {
                Some((s.drop_last(), Seq::empty()))
            } else {
                None
            },
        }
    }
}

/// The parts put together with `separator` between neighbours.
pub open spec fn join(parts: Seq<Seq<char>>, separator: char) -> Seq<char>
    decreases parts.len(),
{
    if parts.len() == 0 {
        Seq::empty()
    } else if parts.len() == 1 {
        parts.last()
    } else {
        join(parts.drop_last(), separator).push(separator) + parts.last()
    }
}

/// The parts that are not empty, in order.
pub open spec fn non_empty(parts: Seq<Seq<char>>) -> Seq<Seq<char>>
    decreases parts.len(),
{
    if parts.len() == 0 {
        Seq::empty()
    } else if parts.last().len() == 0 {
        non_empty(parts.drop_last())
    } else {
        non_empty(parts.drop_last()).push(parts.last())
    }
}

/// The decimal digits of `n`, without leading zeros.
pub open spec fn decimal(n: nat) -> Seq<char>
    decreases n,
{
    if n < 10 {
        seq![digit(n)]
    } else {
        decimal(n / 10).push(digit(n % 10))
    }
}

/// The character for a single decimal digit.
pub open spec fn digit(n: nat) -> char {
    ('0' as nat + n) as char
}

/// [`String::push`] appends the character to the end of the string.
pub assume_specification[ String::push ](s: &mut String, c: char)
    ensures
        final(s)@ == old(s)@.push(c),
;

/// The comparison of two string slices in the standard library: they are equal when they hold the
/// same characters.
#[verifier::external_body]
pub(crate) fn same_text(a: &str, b: &str) -> (r: bool)
    ensures
        r == (a@ == b@),
{
    a == b
}

/// Splits `s` at every occurrence of `separator`.
pub fn split_text(s: &str, separator: char) -> (parts: Vec<String>)
    ensures
        strings(parts@) == split(s@, separator),
{
    let mut parts: Vec<String> = Vec::new();
    let mut current = String::new();
    assert(s@.take(0) =~= Seq::<char>::empty());
    assert(strings(parts@).push(current@) =~= seq![Seq::<char>::empty()]);
    for c in it: s.chars()
        invariant
            it.seq() == s@,
            strings(parts@).push(current@) == split(s@.take(it.index()), separator),
    {
        let ghost before = s@.take(it.index());
        let ghost old_parts = strings(parts@);
        proof {
            assert(s@.take(it.index() + 1).drop_last() =~= before);
            assert(old_parts.push(current@).drop_last() =~= old_parts);
        }
        if c == separator {
            parts.push(current);
            current = String::new();
            assert(strings(parts@) =~= old_parts.push(split(before, separator).last()));
        } else {
            current.push(c);
        }
    }
    parts.push(current);
    assert(s@.take(s@.len() as int) =~= s@);
    assert(strings(parts@) =~= split(s@, separator));
    parts
}

/// Splits `s` at the first occurrence of `separator`.
pub fn split_text_once(s: &str, separator: char) -> (r: Option<(String, String)>)
    ensures
        match r {
            Some((head, tail)) => split_once(s@, separator) == Some((head@, tail@)),
            None => split_once(s@, separator) is None,
        },
{
    let mut head = String::new();
    let mut tail = String::new();
    let mut found = false;
    assert(s@.take(0) =~= Seq::<char>::empty());
    for c in it: s.chars()
        invariant
            it.seq() == s@,
            found ==> split_once(s@.take(it.index()), separator) == Some((head@, tail@)),
            !found ==> split_once(s@.take(it.index()), separator) is None && head@ == s@.take(
                it.index(),
            ) && tail@.len() == 0,
    {
        proof {
            assert(s@.take(it.index() + 1).drop_last() =~= s@.take(it.index()));
        }
        if found {
            tail.push(c);
        } else if c == separator {
            found = true;
            assert(tail@ =~= Seq::<char>::empty());
        } else {
            head.push(c);
            assert(head@ =~= s@.take(it.index() + 1));
        }
    }
    assert(s@.take(s@.len() as int) =~= s@);
    if found {
        Some((head, tail))
    } else {
        None
    }
}

/// Puts the parts together with `separator` between neighbours.
pub fn join_text(parts: &Vec<String>, separator: char) -> (r: String)
    ensures
        r@ == join(strings(parts@), separator),
{
    let mut r = String::new();
    let ghost all = strings(parts@);
    assert(all.take(0) =~= Seq::<Seq<char>>::empty());
    for i in 0..parts.len()
        invariant
            all == strings(parts@),
            r@ == join(all.take(i as int), separator),
    {
        proof {
            assert(all.take(i + 1).drop_last() =~= all.take(i as int));
            assert(all.take(i + 1).last() == parts@[i as int]@);
        }
        if i > 0 {
            r.push(separator);
        }
        r.append(parts[i].as_str());
        assert(r@ =~= join(all.take(i + 1), separator));
    }
    assert(all.take(parts@.len() as int) =~= all);
    r
}

/// Keeps the parts that are not empty.
pub fn keep_non_empty(parts: Vec<String>) -> (r: Vec<String>)
    ensures
        strings(r@) == non_empty(strings(parts@)),
{
    let mut r: Vec<String> = Vec::new();
    let ghost all = strings(parts@);
    assert(all.take(0) =~= Seq::<Seq<char>>::empty());
    assert(strings(r@) =~= Seq::<Seq<char>>::empty());
    for i in 0..parts.len()
        invariant
            all == strings(parts@),
            strings(r@) == non_empty(all.take(i as int)),
    {
        proof {
            assert(all.take(i + 1).drop_last() =~= all.take(i as int));
            assert(all.take(i + 1).last() == parts@[i as int]@);
        }
        if !parts[i].as_str().is_empty() {
            let ghost before = strings(r@);
            r.push(parts[i].clone());
            assert(strings(r@) =~= before.push(parts@[i as int]@));
        }
    }
    assert(all.take(parts@.len() as int) =~= all);
    r
}

/// Writes `n` in decimal.
pub fn decimal_text(n: u64) -> (r: String)
    ensures
        r@ == decimal(n as nat),
    decreases n,
{
    let mut r = if n < 10 {
        String::new()
    } else {
        decimal_text(n / 10)
    };
    let d: u8 = 48u8 + (n % 10) as u8;
    r.push(d as char);
    assert(r@ =~= decimal(n as nat));
    r
}

/// Copies a list of strings.
pub(crate) fn copy_strings(list: &Vec<String>) -> (r: Vec<String>)
    ensures
        strings(r@) == strings(list@),
{
    let mut r: Vec<String> = Vec::new();
    for i in 0..list.len()
        invariant
            strings(r@) =~= strings(list@).take(i as int),
    {
        let ghost before = strings(r@);
        r.push(list[i].clone());
        assert(strings(r@) =~= before.push(list@[i as int]@));
    }
    r
}

/// Splitting never gives an empty list of parts.
pub proof fn lemma_split_has_parts(s: Seq<char>, separator: char)
    ensures
        split(s, separator).len() > 0,
    decreases s.len(),
{
    if s.len() > 0 {
        lemma_split_has_parts(s.drop_last(), separator);
    }
}

proof fn lemma_split_extends_last(s: Seq<char>, t: Seq<char>, separator: char)
    requires
        !t.contains(separator),
    ensures
        split(s + t, separator) == split(s, separator).drop_last().push(
            split(s, separator).last() + t,
        ),
    decreases t.len(),
{
    lemma_split_has_parts(s, separator);
    let parts = split(s, separator);
    if t.len() == 0 {
        assert(s + t =~= s);
        assert(parts.last() + t =~= parts.last());
        assert(parts.drop_last().push(parts.last()) =~= parts);
    } else {
        let short = t.drop_last();
        assert forall|c: char| short.contains(c) implies t.contains(c) by {
            let i = choose|i: int| 0 <= i < short.len() && short[i] == c;
            assert(t[i] == c);
        }
        lemma_split_extends_last(s, short, separator);
        assert((s + t).drop_last() =~= s + short);
        assert((s + t).last() == t.last());
        assert(t.contains(t.last())) by {
            assert(t[t.len() - 1] == t.last());
        }
        let before = split(s + short, separator);
        assert(before.drop_last() =~= parts.drop_last());
        assert(before.last().push(t.last()) =~= parts.last() + t);
    }
}

/// Splitting undoes joining: a non-empty list of parts, none of which contains the separator,
/// comes back from the joined text.
pub proof fn law_split_undoes_join(parts: Seq<Seq<char>>, separator: char)
    requires
        parts.len() > 0,
        forall|i: int| 0 <= i < parts.len() ==> !(#[trigger] parts[i]).contains(separator),
    ensures
        split(join(parts, separator), separator) == parts,
    decreases parts.len(),
{
    let last = parts.last();
    if parts.len() == 1 {
        lemma_split_extends_last(Seq::empty(), last, separator);
        assert(Seq::<char>::empty() + last =~= last);
        assert(split(Seq::<char>::empty(), separator) =~= seq![Seq::<char>::empty()]);
        assert(split(last, separator) =~= parts);
    } else {
        let front = parts.drop_last();
        assert forall|i: int| 0 <= i < front.len() implies !(#[trigger] front[i]).contains(
            separator,
        ) by {
            assert(front[i] == parts[i]);
        }
        law_split_undoes_join(front, separator);
        let head = join(front, separator).push(separator);
        assert(head.drop_last() =~= join(front, separator));
        assert(split(head, separator) =~= front.push(Seq::empty()));
        lemma_split_extends_last(head, last, separator);
        assert(split(head, separator).drop_last() =~= front);
        assert(Seq::<char>::empty() + last =~= last);
        assert(front.push(last) =~= parts);
    }
}

/// Splitting once at a separator that the head does not contain gives back head and tail.
pub proof fn law_split_once_undoes_concatenation(
    head: Seq<char>,
    tail: Seq<char>,
    separator: char,
)
    requires
        !head.contains(separator),
    ensures
        split_once(head.push(separator) + tail, separator) == Some((head, tail)),
    decreases tail.len(),
{
    if tail.len() == 0 {
        assert(head.push(separator) + tail =~= head.push(separator));
        assert(head.push(separator).drop_last() =~= head);
        lemma_split_once_absent(head, separator);
        assert(tail =~= Seq::empty());
    } else {
        law_split_once_undoes_concatenation(head, tail.drop_last(), separator);
        assert((head.push(separator) + tail).drop_last() =~= head.push(separator)
            + tail.drop_last());
        assert(tail.drop_last().push(tail.last()) =~= tail);
    }
}

pub(crate) proof fn lemma_split_once_absent(s: Seq<char>, separator: char)
    requires
        !s.contains(separator),
    ensures
        split_once(s, separator) is None,
    decreases s.len(),
{
    if s.len() > 0 {
        let short = s.drop_last();
        assert forall|c: char| short.contains(c) implies s.contains(c) by {
            let i = choose|i: int| 0 <= i < short.len() && short[i] == c;
            assert(s[i] == c);
        }
        assert(s.contains(s.last())) by {
            assert(s[s.len() - 1] == s.last());
        }
        lemma_split_once_absent(short, separator);
    }
}

/// A list without empty parts is kept whole.
pub proof fn lemma_non_empty_keeps_all(parts: Seq<Seq<char>>)
    requires
        forall|i: int| 0 <= i < parts.len() ==> (#[trigger] parts[i]).len() > 0,
    ensures
        non_empty(parts) == parts,
    decreases parts.len(),
{
    if parts.len() > 0 {
        let front = parts.drop_last();
        assert forall|i: int| 0 <= i < front.len() implies (#[trigger] front[i]).len() > 0 by {
            assert(front[i] == parts[i]);
        }
        lemma_non_empty_keeps_all(front);
        assert(parts[parts.len() - 1] == parts.last());
        assert(front.push(parts.last()) =~= parts);
    }
}

/// Whether `c` is not among the first `n` characters of `s`.
pub(crate) open spec fn lacks(s: Seq<char>, c: char, n: nat) -> bool
    decreases n,
{
    n == 0 || (s[n - 1] != c && lacks(s, c, (n - 1) as nat))
}

pub(crate) proof fn lemma_lacks_all(s: Seq<char>, c: char, n: nat)
    requires
        lacks(s, c, n),
        n <= s.len(),
    ensures
        !s.take(n as int).contains(c),
    decreases n,
{
    if n > 0 {
        lemma_lacks_all(s, c, (n - 1) as nat);
        if s.take(n as int).contains(c) {
            let i = choose|i: int| 0 <= i < n && s.take(n as int)[i] == c;
            assert(s.take(n - 1)[i] == c);
        }
    }
}

/// Joining the parts of a split text gives back the text, and no part contains the separator.
pub proof fn law_join_undoes_split(s: Seq<char>, separator: char)
    ensures
        join(split(s, separator), separator) == s,
        forall|i: int|
            0 <= i < split(s, separator).len() ==> !(#[trigger] split(s, separator)[i]).contains(
                separator,
            ),
    decreases s.len(),
{
    if s.len() > 0 {
        let short = s.drop_last();
        law_join_undoes_split(short, separator);
        lemma_split_has_parts(short, separator);
        let before = split(short, separator);
        let parts = split(s, separator);
        if s.last() == separator {
            assert(parts.drop_last() =~= before);
            assert(join(parts, separator) =~= s);
        } else {
            let last = before.last().push(s.last());
            assert(parts.drop_last() =~= before.drop_last());
            assert(parts.last() == last);
            if before.len() > 1 {
                assert(join(parts, separator) =~= join(before, separator).push(s.last()));
            }
            assert(join(parts, separator) =~= s);
            assert forall|i: int| 0 <= i < parts.len() implies !(#[trigger] parts[i]).contains(
                separator,
            ) by {
                if i == parts.len() - 1 {
                    assert(!before[i].contains(separator));
                    if last.contains(separator) {
                        let j = choose|j: int| 0 <= j < last.len() && last[j] == separator;
                        assert(before[i][j] == separator);
                    }
                } else {
                    assert(parts[i] == before[i]);
                }
            }
        }
    }
}

/// Joining puts one separator between what comes of the first parts and what comes of the others.
/// There is none for a single part.
pub proof fn law_join_of_two_lists(
    first: Seq<Seq<char>>,
    second: Seq<Seq<char>>,
    part: Seq<char>,
    separator: char,
)
    ensures
        join(Seq::empty(), separator) == Seq::<char>::empty(),
        join(seq![part], separator) == part,
        first.len() > 0 && second.len() > 0 ==> join(first + second, separator) == join(
            first,
            separator,
        ).push(separator) + join(second, separator),
    decreases second.len(),
{
    if first.len() > 0 && second.len() > 0 {
        assert((first + second).drop_last() =~= first + second.drop_last());
        if second.len() == 1 {
            assert(first + second.drop_last() =~= first);
        } else {
            law_join_of_two_lists(first, second.drop_last(), part, separator);
            assert(join(first + second, separator) =~= join(first, separator).push(separator)
                + join(second, separator));
        }
    }
}

/// A text is split once exactly if it contains the separator. Put together again, head, separator
/// and tail are the text, and the head does not contain the separator.
pub proof fn law_split_once_finds_the_first(s: Seq<char>, separator: char)
    ensures
        split_once(s, separator) is Some <==> s.contains(separator),
        split_once(s, separator) matches Some((head, tail)) ==> s == head.push(separator) + tail
            && !head.contains(separator),
    decreases s.len(),
{
    if !s.contains(separator) {
        lemma_split_once_absent(s, separator);
    } else {
        let at = s.index_of_first(separator)->0;
        s.index_of_first_ensures(separator);
        let head = s.take(at);
        let tail = s.skip(at + 1);
        assert(s =~= head.push(separator) + tail);
        if head.contains(separator) {
            let i = choose|i: int| 0 <= i < head.len() && head[i] == separator;
            assert(s[i] == separator);
        }
        law_split_once_undoes_concatenation(head, tail, separator);
    }
}

/// Leaving out empty parts leaves them out of each half of a list, and keeps any other part.
pub proof fn law_non_empty_of_two_lists(
    first: Seq<Seq<char>>,
    second: Seq<Seq<char>>,
    part: Seq<char>,
)
    ensures
        non_empty(Seq::empty()) == Seq::<Seq<char>>::empty(),
        part.len() == 0 ==> non_empty(seq![part]) == Seq::<Seq<char>>::empty(),
        part.len() > 0 ==> non_empty(seq![part]) == seq![part],
        non_empty(first + second) == non_empty(first) + non_empty(second),
    decreases second.len(),
{
    assert(seq![part].drop_last() =~= Seq::<Seq<char>>::empty());
    assert(non_empty(seq![part].drop_last()) =~= Seq::<Seq<char>>::empty());
    if second.len() == 0 {
        assert(first + second =~= first);
    } else {
        assert((first + second).drop_last() =~= first + second.drop_last());
        law_non_empty_of_two_lists(first, second.drop_last(), part);
    }
}

/// In decimal, ten times a number and one digit more has the digits of the number and then this
/// digit. A number below ten has one digit.
pub proof fn law_decimal_has_place_values(n: nat, last: nat)
    requires
        last < 10,
    ensures
        decimal(last).len() == 1,
        decimal(last)[0] as int == '0' as int + last,
        n > 0 ==> decimal(10 * n + last) == decimal(n) + decimal(last),
{
    if n > 0 {
        assert((10 * n + last) / 10 == n);
        assert((10 * n + last) % 10 == last);
        assert(decimal(10 * n + last) =~= decimal(n) + decimal(last));
    }
}

} // verus!
