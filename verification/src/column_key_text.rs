//! Column keys as text, formatted like "columnKeyId1:column1,column2;columnKeyId2:column3".

use vstd::prelude::*;

use crate::column_keys::ColumnKeys;
use crate::column_keys::as_map;
use crate::column_keys::distinct_ids;
use crate::column_keys::has_id;
use crate::column_keys::inserted;
use crate::column_keys::law_inserted_columns_replace;
use crate::error::Error;
use crate::error::ErrorModel;
use crate::text::join;
use crate::text::join_text;
use crate::text::keep_non_empty;
use crate::text::law_join_of_two_lists;
use crate::text::law_split_once_finds_the_first;
use crate::text::law_split_once_undoes_concatenation;
use crate::text::law_split_undoes_join;
use crate::text::lemma_non_empty_keeps_all;
use crate::text::lemma_split_has_parts;
use crate::text::non_empty;
use crate::text::split;
use crate::text::split_once;
use crate::text::split_text;
use crate::text::split_text_once;
use crate::text::strings;

verus! {

/// A master key identifier and its columns as text.
pub open spec fn entry_text(entry: (Seq<char>, Seq<Seq<char>>)) -> Seq<char> {
    entry.0.push(':') + join(entry.1, ',')
}

/// The master key identifiers and their columns as texts.
pub open spec fn entry_texts(entries: Seq<(Seq<char>, Seq<Seq<char>>)>) -> Seq<Seq<char>> {
    entries.map_values(|entry: (Seq<char>, Seq<Seq<char>>)| entry_text(entry))
}

/// Column keys as text.
pub open spec fn serialized(entries: Seq<(Seq<char>, Seq<Seq<char>>)>) -> Seq<char> {
    join(entry_texts(entries), ';')
}

/// The column keys that texts describe, where each text has an identifier or is empty. Empty texts
/// and empty column names are passed over.
pub open spec fn keys_in(parts: Seq<Seq<char>>) -> Option<Seq<(Seq<char>, Seq<Seq<char>>)>>
    decreases parts.len(),
{
    if parts.len() == 0 {
        Some(Seq::empty())
    } else {
        match keys_in(parts.drop_last()) {
            Some(keys) => if parts.last().len() == 0 {
                Some(keys)
            } else {
                match split_once(parts.last(), ':') {
                    Some((id, columns)) => Some(
                        inserted(keys, id, non_empty(split(columns, ','))),
                    ),
                    None => None,
                }
            },
            None => None,
        }
    }
}

/// The column keys that a text describes.
pub open spec fn deserialized(text: Seq<char>) -> Result<
    Seq<(Seq<char>, Seq<Seq<char>>)>,
    ErrorModel,
> {
    match keys_in(split(text, ';')) {
        Some(keys) => Ok(keys),
        None => Err(
            ErrorModel::Configuration(
                "Invalid column_key_ids format in encryption configuration: '"@ + text + "'"@,
            ),
        ),
    }
}

/// What the reading of column keys came to.
pub open spec fn column_keys_outcome(r: Result<ColumnKeys, Error>) -> Result<
    Seq<(Seq<char>, Seq<Seq<char>>)>,
    ErrorModel,
> {
    match r {
        Ok(keys) => Ok(keys@),
        Err(e) => Err(e@),
    }
}

/// Writes column keys as text.
pub fn serialize_column_keys(column_key_ids: &ColumnKeys) -> (r: String)
    ensures
        r@ == serialized(column_key_ids@),
{
    let ghost texts = entry_texts(column_key_ids@);
    let mut result = String::new();
    let count: usize = column_key_ids.len();
    assert(texts.take(0) =~= Seq::<Seq<char>>::empty());
    for i in 0..count
        invariant
            count == column_key_ids@.len(),
            texts == entry_texts(column_key_ids@),
            result@ == join(texts.take(i as int), ';'),
    {
        let entry = column_key_ids.entry(i);
        let ghost before = result@;
        if i > 0 {
            result.push(';');
        }
        result.append(entry.master_key_id.as_str());
        result.push(':');
        result.append(join_text(&entry.columns, ',').as_str());
        proof {
            assert(texts.take(i + 1).drop_last() =~= texts.take(i as int));
            assert(texts[i as int] == entry_text(entry@));
            if i > 0 {
                assert(result@ =~= before.push(';') + entry_text(entry@));
            } else {
                assert(result@ =~= entry_text(entry@));
            }
        }
    }
    assert(texts.take(texts.len() as int) =~= texts);
    result
}

proof fn lemma_invalid_part(parts: Seq<Seq<char>>, n: int)
    requires
        0 <= n <= parts.len(),
        keys_in(parts.take(n)) is None,
    ensures
        keys_in(parts) is None,
    decreases parts.len(),
{
    if n == parts.len() {
        assert(parts.take(n) =~= parts);
    } else {
        assert(parts.drop_last().take(n) =~= parts.take(n));
        lemma_invalid_part(parts.drop_last(), n);
    }
}

/// Reads column keys from text.
pub fn deserialize_column_keys(column_key_ids: &str) -> (r: Result<ColumnKeys, Error>)
    ensures
        column_keys_outcome(r) == deserialized(column_key_ids@),
{
    let parts = split_text(column_key_ids, ';');
    let ghost texts = strings(parts@);
    let mut keys = ColumnKeys::new();
    assert(texts.take(0) =~= Seq::<Seq<char>>::empty());
    for i in 0..parts.len()
        invariant
            texts == strings(parts@),
            texts == split(column_key_ids@, ';'),
            keys_in(texts.take(i as int)) == Some(keys@),
    {
        let key_with_cols = parts[i].as_str();
        proof {
            assert(texts.take(i + 1).drop_last() =~= texts.take(i as int));
            assert(texts.take(i + 1).last() == key_with_cols@);
        }
        if !key_with_cols.is_empty() {
            match split_text_once(key_with_cols, ':') {
                Some((key_id, cols)) => {
                    let cols = keep_non_empty(split_text(cols.as_str(), ','));
                    keys.insert(key_id, cols);
                },
                None => {
                    proof {
                        lemma_invalid_part(texts, i + 1);
                    }
                    return Err(
                        Error::Configuration(
                            "Invalid column_key_ids format in encryption configuration: '".to_owned().concat(
                            column_key_ids).concat("'"),
                        ),
                    );
                },
            }
        }
    }
    assert(texts.take(texts.len() as int) =~= texts);
    Ok(keys)
}

/// Whether column keys can be told apart in their text: identifiers hold neither ':' nor ';', and
/// column names are not empty and hold neither ',' nor ';'.
pub open spec fn separable(entries: Seq<(Seq<char>, Seq<Seq<char>>)>) -> bool {
    forall|i: int| 0 <= i < entries.len() ==> entry_separable(#[trigger] entries[i])
}

/// Whether a master key identifier and its columns can be told apart in their text.
pub open spec fn entry_separable(entry: (Seq<char>, Seq<Seq<char>>)) -> bool {
    &&& !entry.0.contains(':')
    &&& !entry.0.contains(';')
    &&& forall|i: int|
        0 <= i < entry.1.len() ==> (#[trigger] entry.1[i]).len() > 0 && !entry.1[i].contains(',')
            && !entry.1[i].contains(';')
}

proof fn lemma_join_lacks(parts: Seq<Seq<char>>, separator: char, c: char)
    requires
        c != separator,
        forall|i: int| 0 <= i < parts.len() ==> !(#[trigger] parts[i]).contains(c),
    ensures
        !join(parts, separator).contains(c),
    decreases parts.len(),
{
    if parts.len() == 1 {
        assert(parts[0] == parts.last());
    } else if parts.len() > 1 {
        let front = parts.drop_last();
        assert forall|i: int| 0 <= i < front.len() implies !(#[trigger] front[i]).contains(c) by {
            assert(front[i] == parts[i]);
        }
        lemma_join_lacks(front, separator, c);
        let head = join(front, separator).push(separator);
        let all = head + parts.last();
        assert(parts[parts.len() - 1] == parts.last());
        if all.contains(c) {
            let i = choose|i: int| 0 <= i < all.len() && all[i] == c;
            if i < head.len() - 1 {
                assert(join(front, separator)[i] == c);
            } else if i >= head.len() {
                assert(parts.last()[i - head.len()] == c);
            }
        }
    }
}

proof fn lemma_entry_reads_back(entry: (Seq<char>, Seq<Seq<char>>))
    requires
        entry_separable(entry),
    ensures
        entry_text(entry).len() > 0,
        !entry_text(entry).contains(';'),
        split_once(entry_text(entry), ':') == Some((entry.0, join(entry.1, ','))),
        non_empty(split(join(entry.1, ','), ',')) == entry.1,
{
    let columns = join(entry.1, ',');
    lemma_join_lacks(entry.1, ',', ';');
    law_split_once_undoes_concatenation(entry.0, columns, ':');
    let text = entry_text(entry);
    if text.contains(';') {
        let i = choose|i: int| 0 <= i < text.len() && text[i] == ';';
        if i < entry.0.len() {
            assert(entry.0[i] == ';');
        } else if i > entry.0.len() {
            assert(columns[i - entry.0.len() - 1] == ';');
        }
    }
    if entry.1.len() == 0 {
        let one_empty = split(columns, ',');
        assert(one_empty =~= seq![Seq::<char>::empty()]);
        assert(one_empty.drop_last() =~= Seq::<Seq<char>>::empty());
        assert(non_empty(one_empty.drop_last()) =~= entry.1);
    } else {
        law_split_undoes_join(entry.1, ',');
        lemma_non_empty_keeps_all(entry.1);
    }
}

proof fn lemma_texts_read_back(entries: Seq<(Seq<char>, Seq<Seq<char>>)>)
    requires
        distinct_ids(entries),
        separable(entries),
    ensures
        keys_in(entry_texts(entries)) == Some(entries),
    decreases entries.len(),
{
    let texts = entry_texts(entries);
    if entries.len() == 0 {
        assert(entries =~= Seq::<(Seq<char>, Seq<Seq<char>>)>::empty());
    } else {
        let front = entries.drop_last();
        assert(distinct_ids(front)) by {
            assert forall|i: int, j: int| 0 <= i < j < front.len() implies (#[trigger] front[i]).0
                != (#[trigger] front[j]).0 by {
                assert(entries[i].0 != entries[j].0);
            }
        }
        assert forall|i: int| 0 <= i < front.len() implies entry_separable(#[trigger] front[i]) by {
            assert(front[i] == entries[i]);
        }
        lemma_texts_read_back(front);
        assert(texts.drop_last() =~= entry_texts(front));
        let last = entries[entries.len() - 1];
        assert(entry_separable(last));
        lemma_entry_reads_back(last);
        assert(texts.last() == entry_text(last));
        assert(!has_id(front, last.0)) by {
            assert forall|i: int| 0 <= i < front.len() implies (#[trigger] front[i]).0 != last.0 by {
                assert(entries[i].0 != entries[entries.len() - 1].0);
            }
        }
        assert(front.push(last) =~= entries);
    }
}

/// Column keys that were written as text read as the same column keys.
pub proof fn law_deserialization_undoes_serialization(
    entries: Seq<(Seq<char>, Seq<Seq<char>>)>,
)
    requires
        distinct_ids(entries),
        separable(entries),
    ensures
        deserialized(serialized(entries)) == Ok::<Seq<(Seq<char>, Seq<Seq<char>>)>, ErrorModel>(
            entries,
        ),
{
    let texts = entry_texts(entries);
    if entries.len() == 0 {
        let one_empty = split(serialized(entries), ';');
        assert(one_empty =~= seq![Seq::<char>::empty()]);
        assert(one_empty.drop_last() =~= Seq::<Seq<char>>::empty());
        assert(keys_in(one_empty.drop_last()) == Some(Seq::<(Seq<char>, Seq<Seq<char>>)>::empty()));
        assert(entries =~= Seq::<(Seq<char>, Seq<Seq<char>>)>::empty());
    } else {
        assert forall|i: int| 0 <= i < texts.len() implies !(#[trigger] texts[i]).contains(';') by {
            assert(entry_separable(entries[i]));
            lemma_entry_reads_back(entries[i]);
        }
        law_split_undoes_join(texts, ';');
        lemma_texts_read_back(entries);
    }
}

/// In the text of column keys, a master key identifier is followed by ':' and its columns, which
/// are separated by ',', and the texts of master keys are separated by ';'.
pub proof fn law_text_has_the_separators(
    first: Seq<(Seq<char>, Seq<Seq<char>>)>,
    second: Seq<(Seq<char>, Seq<Seq<char>>)>,
    id: Seq<char>,
    columns: Seq<Seq<char>>,
)
    ensures
        serialized(Seq::empty()) == Seq::<char>::empty(),
        serialized(seq![(id, columns)]) == id + seq![':'] + join(columns, ','),
        first.len() > 0 && second.len() > 0 ==> serialized(first + second) == serialized(first)
            + seq![';'] + serialized(second),
{
    assert(entry_texts(Seq::empty()) =~= Seq::<Seq<char>>::empty());
    assert(entry_texts(seq![(id, columns)]) =~= seq![entry_text((id, columns))]);
    assert(serialized(seq![(id, columns)]) =~= id + seq![':'] + join(columns, ','));
    assert(entry_texts(first + second) =~= entry_texts(first) + entry_texts(second));
    law_join_of_two_lists(entry_texts(first), entry_texts(second), Seq::empty(), ';');
    if first.len() > 0 && second.len() > 0 {
        assert(serialized(first + second) =~= serialized(first) + seq![';'] + serialized(second));
    }
}

/// A text without ';' has one master key: what is before the first ':', with the column names
/// after it that are not empty. An empty text has none, and any other text is refused.
pub proof fn law_text_of_one_key_is_read(text: Seq<char>, id: Seq<char>, columns: Seq<char>)
    requires
        !text.contains(';'),
    ensures
        text.len() == 0 ==> deserialized(text) == Ok::<Seq<(Seq<char>, Seq<Seq<char>>)>, ErrorModel>(
            Seq::empty(),
        ),
        text == id + seq![':'] + columns && !id.contains(':') ==> deserialized(text) == Ok::<
            Seq<(Seq<char>, Seq<Seq<char>>)>,
            ErrorModel,
        >(seq![(id, non_empty(split(columns, ',')))]),
        text.len() > 0 && !text.contains(':') ==> deserialized(text) == Err::<
            Seq<(Seq<char>, Seq<Seq<char>>)>,
            ErrorModel,
        >(
            ErrorModel::Configuration(
                "Invalid column_key_ids format in encryption configuration: '"@ + text + "'"@,
            ),
        ),
{
    let none = Seq::<(Seq<char>, Seq<Seq<char>>)>::empty();
    law_split_undoes_join(seq![text], ';');
    assert(split(text, ';') == seq![text]);
    assert(seq![text].drop_last() =~= Seq::<Seq<char>>::empty());
    assert(keys_in(seq![text].drop_last()) == Some(none));
    if text == id + seq![':'] + columns && !id.contains(':') {
        assert(text =~= id.push(':') + columns);
        law_split_once_undoes_concatenation(id, columns, ':');
        assert(inserted(none, id, non_empty(split(columns, ','))) =~= seq![
            (id, non_empty(split(columns, ','))),
        ]);
    }
    if !text.contains(':') {
        law_split_once_finds_the_first(text, ':');
    }
}

proof fn lemma_split_of_two(a: Seq<char>, b: Seq<char>, separator: char)
    ensures
        split(a.push(separator) + b, separator) == split(a, separator) + split(b, separator),
    decreases b.len(),
{
    let first = split(a, separator);
    if b.len() == 0 {
        assert(a.push(separator) + b =~= a.push(separator));
        assert(a.push(separator).drop_last() =~= a);
        assert(split(a.push(separator), separator) =~= first + split(b, separator));
    } else {
        lemma_split_of_two(a, b.drop_last(), separator);
        lemma_split_has_parts(b.drop_last(), separator);
        assert((a.push(separator) + b).drop_last() =~= a.push(separator) + b.drop_last());
        let before = split(b.drop_last(), separator);
        assert((first + before).drop_last() =~= first + before.drop_last());
        assert((first + before).last() == before.last());
        assert(split(a.push(separator) + b, separator) =~= first + split(b, separator));
    }
}

proof fn lemma_keys_are_distinct(parts: Seq<Seq<char>>)
    ensures
        keys_in(parts) matches Some(keys) ==> distinct_ids(keys),
    decreases parts.len(),
{
    if parts.len() > 0 {
        lemma_keys_are_distinct(parts.drop_last());
        if keys_in(parts.drop_last()) is Some && parts.last().len() > 0 && split_once(
            parts.last(),
            ':',
        ) is Some {
            let (id, columns) = split_once(parts.last(), ':')->0;
            law_inserted_columns_replace(
                keys_in(parts.drop_last())->0,
                id,
                non_empty(split(columns, ',')),
            );
        }
    }
}

proof fn lemma_keys_of_two(first: Seq<Seq<char>>, second: Seq<Seq<char>>)
    ensures
        keys_in(first + second) is Some <==> keys_in(first) is Some && keys_in(second) is Some,
        keys_in(first + second) matches Some(keys) ==> as_map(keys) == as_map(
            keys_in(first)->0,
        ).union_prefer_right(as_map(keys_in(second)->0)),
    decreases second.len(),
{
    let both = first + second;
    lemma_keys_are_distinct(first);
    if second.len() == 0 {
        assert(both =~= first);
        assert(as_map(keys_in(second)->0) =~= Map::<Seq<char>, Seq<Seq<char>>>::empty());
        if keys_in(first) is Some {
            assert(as_map(keys_in(first)->0) =~= as_map(
                keys_in(first)->0,
            ).union_prefer_right(as_map(keys_in(second)->0)));
        }
    } else {
        assert(both.drop_last() =~= first + second.drop_last());
        lemma_keys_of_two(first, second.drop_last());
        lemma_keys_are_distinct(both.drop_last());
        lemma_keys_are_distinct(second.drop_last());
        let part = second.last();
        assert(both.last() == part);
        if keys_in(both) is Some && part.len() > 0 {
            let (id, text) = split_once(part, ':')->0;
            let columns = non_empty(split(text, ','));
            let all = keys_in(both.drop_last())->0;
            let later = keys_in(second.drop_last())->0;
            law_inserted_columns_replace(all, id, columns);
            law_inserted_columns_replace(later, id, columns);
            assert(as_map(keys_in(both)->0) =~= as_map(
                keys_in(first)->0,
            ).union_prefer_right(as_map(keys_in(second)->0)));
        }
    }
}

/// A text with ';' has the master keys of the text before it and those of the text after it, which
/// replace any that were there before. It is refused if either text is.
pub proof fn law_later_keys_replace(first: Seq<char>, second: Seq<char>)
    ensures
        match (deserialized(first), deserialized(second)) {
            (Ok(keys), Ok(later)) => deserialized(first + seq![';'] + second) matches Ok(all)
                && as_map(all) == as_map(keys).union_prefer_right(as_map(later)),
            _ => deserialized(first + seq![';'] + second) == Err::<
                Seq<(Seq<char>, Seq<Seq<char>>)>,
                ErrorModel,
            >(
                ErrorModel::Configuration(
                    "Invalid column_key_ids format in encryption configuration: '"@ + (first
                        + seq![';'] + second) + "'"@,
                ),
            ),
        },
{
    assert(first + seq![';'] + second =~= first.push(';') + second);
    lemma_split_of_two(first, second, ';');
    lemma_keys_of_two(split(first, ';'), split(second, ';'));
}

} // verus!
