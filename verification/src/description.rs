//! The description that the text of a unit file gives.
//!
//! A unit file is read line by line. A line ends at a line feed, and a
//! carriage return right before that line feed belongs to the line ending.
//! The last line need not end with a line feed.

use crate::text::char_count_fits;
use vstd::prelude::*;
use vstd::std_specs::iter::IteratorSpec;

verus! {

/// The character that ends a line.
pub const LINE_FEED: char = '\n';

/// The character that may stand before a line feed as part of the line ending.
pub const CARRIAGE_RETURN: char = '\r';

/// What a line starts with when it gives the description: the key and the
/// `=` that sets the value apart, twelve characters in all.
pub const DESCRIPTION_KEY: &'static str = "Description=";

/// Number of characters of `DESCRIPTION_KEY`.
pub const DESCRIPTION_KEY_LEN: usize = 12;

/// The characters of `DESCRIPTION_KEY`.
pub open spec fn description_key() -> Seq<char> {
    DESCRIPTION_KEY@
}

/// Number of characters that `text` holds before its first line feed.
pub open spec fn line_len(text: Seq<char>) -> nat
    decreases text.len(),
{
    if text.len() == 0 || text[0] == LINE_FEED {
        0
    } else {
        1 + line_len(text.drop_first())
    }
}

/// The first line of `text`, without its line ending.
pub open spec fn first_line(text: Seq<char>) -> Seq<char> {
    let line = text.take(line_len(text) as int);
    if line_len(text) < text.len() && line.len() > 0 && line.last() == CARRIAGE_RETURN {
        line.drop_last()
    } else {
        line
    }
}

/// What follows the first line of `text` and its line ending.
pub open spec fn after_first_line(text: Seq<char>) -> Seq<char> {
    if line_len(text) < text.len() {
        text.skip(line_len(text) as int + 1)
    } else {
        Seq::empty()
    }
}

/// The description that `text` gives: what follows the key on the first line
/// that starts with the key, if there is such a line.
pub open spec fn description_of(text: Seq<char>) -> Option<Seq<char>>
    decreases text.len(),
{
    if text.len() == 0 {
        None
    } else if description_key().is_prefix_of(first_line(text)) {
        Some(first_line(text).skip(description_key().len() as int))
    } else {
        description_of(after_first_line(text))
    }
}

/// The first line of a text ends where its first line feed stands, or where
/// the text ends if it holds none.
proof fn lemma_line_len(text: Seq<char>, end: int)
    requires
        0 <= end <= text.len(),
        forall|i: int| 0 <= i < end ==> text[i] != LINE_FEED,
        end == text.len() || text[end] == LINE_FEED,
    ensures
        line_len(text) == end,
    decreases end,
{
    if end > 0 {
        lemma_line_len(text.drop_first(), end - 1);
    }
}

/// A first line that starts with the key gives the description: all that
/// follows the key, up to the line feed that ends the line or the carriage
/// return before it, or up to the end of a text that holds no line feed.
pub proof fn description_on_first_line(value: Seq<char>, rest: Seq<char>)
    requires
        forall|i: int| 0 <= i < value.len() ==> value[i] != LINE_FEED,
    ensures
        description_of(description_key() + value) == Some(value),
        value.len() == 0 || value.last() != CARRIAGE_RETURN ==> description_of(
            description_key() + value + seq![LINE_FEED] + rest,
        ) == Some(value),
        description_of(description_key() + value + seq![CARRIAGE_RETURN, LINE_FEED] + rest) == Some(
            value,
        ),
{
    reveal_strlit("Description=");
    let key = description_key();
    let whole = key + value;
    let len = whole.len() as int;
    lemma_line_len(whole, len);
    assert(whole.take(len) =~= whole);
    assert(whole.subrange(0, DESCRIPTION_KEY_LEN as int) =~= key);
    assert(whole.skip(DESCRIPTION_KEY_LEN as int) =~= value);

    let ended = key + value + seq![LINE_FEED] + rest;
    lemma_line_len(ended, len);
    assert(ended.take(len) =~= whole);

    let returned = key + value + seq![CARRIAGE_RETURN, LINE_FEED] + rest;
    lemma_line_len(returned, len + 1);
    assert(returned.take(len + 1).drop_last() =~= whole);
}

/// A first line that does not start with the key is passed over: the
/// description is sought in what follows it.
pub proof fn description_after_other_line(line: Seq<char>, rest: Seq<char>)
    requires
        forall|i: int| 0 <= i < line.len() ==> line[i] != LINE_FEED,
        !description_key().is_prefix_of(line),
    ensures
        description_of(line + seq![LINE_FEED] + rest) == description_of(rest),
{
    let key = description_key();
    let text = line + seq![LINE_FEED] + rest;
    lemma_line_len(text, line.len() as int);
    assert(text.take(line.len() as int) =~= line);
    assert(after_first_line(text) =~= rest);
    if key.is_prefix_of(first_line(text)) {
        assert(first_line(text).subrange(0, key.len() as int) =~= line.subrange(
            0,
            key.len() as int,
        ));
    }
}

/// A text that ends within a line that does not start with the key gives no
/// description, and neither does an empty text.
pub proof fn no_description_in_other_line(line: Seq<char>)
    requires
        forall|i: int| 0 <= i < line.len() ==> line[i] != LINE_FEED,
        !description_key().is_prefix_of(line),
    ensures
        description_of(line) is None,
{
    if line.len() > 0 {
        lemma_line_len(line, line.len() as int);
        assert(line.take(line.len() as int) =~= line);
        assert(description_of(after_first_line(line)) is None);
    }
}

/// Whether a line of `text` starts at `at`: at the start of the text, or
/// behind a line feed.
pub open spec fn starts_line(text: Seq<char>, at: int) -> bool {
    0 <= at <= text.len() && (at == 0 || text[at - 1] == LINE_FEED)
}

/// A text gives a description exactly where one of its lines starts with the
/// key.
pub proof fn description_where_key_starts_line(text: Seq<char>)
    ensures
        description_of(text) is Some <==> exists|at: int|
            starts_line(text, at) && description_key().is_prefix_of(#[trigger] text.skip(at)),
    decreases text.len(),
{
    reveal_strlit("Description=");
    let key = description_key();
    let len = line_len(text) as int;
    lemma_line_len_is_first_feed(text);
    if text.len() == 0 {
    } else if key.is_prefix_of(first_line(text)) {
        assert(key =~= text.skip(0).subrange(0, key.len() as int));
        assert(starts_line(text, 0) && key.is_prefix_of(text.skip(0)));
    } else {
        let rest = after_first_line(text);
        description_where_key_starts_line(rest);
        // The first line does not start with the key,
        assert(!key.is_prefix_of(text.skip(0))) by {
            if key.is_prefix_of(text.skip(0)) {
                assert forall|i: int| 0 <= i < key.len() implies text[i] == key[i] by {
                    assert(text.skip(0).subrange(0, key.len() as int)[i] == key[i]);
                }
                assert(text[key.len() - 1] != CARRIAGE_RETURN);
                assert(key =~= first_line(text).subrange(0, key.len() as int));
            }
        }
        // and the lines behind it are the lines of what follows it.
        assert forall|at: int|
            starts_line(text, at) && key.is_prefix_of(#[trigger] text.skip(at)) implies len < at
            && starts_line(rest, at - len - 1) && key.is_prefix_of(rest.skip(at - len - 1)) by {
            assert(text.skip(at) =~= rest.skip(at - len - 1));
        }
        assert forall|at: int|
            starts_line(rest, at) && key.is_prefix_of(#[trigger] rest.skip(at)) implies starts_line(
            text,
            at + len + 1,
        ) && key.is_prefix_of(text.skip(at + len + 1)) by {
            assert(text.skip(at + len + 1) =~= rest.skip(at));
        }
        if description_of(rest) is Some {
            let at = choose|at: int|
                starts_line(rest, at) && key.is_prefix_of(#[trigger] rest.skip(at));
            assert(key.is_prefix_of(text.skip(at + len + 1)));
        }
        if exists|at: int| starts_line(text, at) && key.is_prefix_of(#[trigger] text.skip(at)) {
            let at = choose|at: int|
                starts_line(text, at) && key.is_prefix_of(#[trigger] text.skip(at));
            assert(key.is_prefix_of(rest.skip(at - len - 1)));
        }
    }
}

/// The first line of a text holds no line feed, and a line feed ends it
/// unless the text ends with it.
proof fn lemma_line_len_is_first_feed(text: Seq<char>)
    ensures
        line_len(text) <= text.len(),
        forall|i: int| 0 <= i < line_len(text) ==> text[i] != LINE_FEED,
        line_len(text) < text.len() ==> text[line_len(text) as int] == LINE_FEED,
    decreases text.len(),
{
    if text.len() > 0 && text[0] != LINE_FEED {
        let rest = text.drop_first();
        lemma_line_len_is_first_feed(rest);
        assert forall|i: int| 0 <= i < line_len(text) implies text[i] != LINE_FEED by {
            if i > 0 {
                assert(rest[i - 1] == text[i]);
            }
        }
    }
}

/// Finds the description in the text of a unit file. It is a part of `info`:
/// nothing is copied.
pub fn get_unit_description(info: &str) -> (description: Option<&str>)
    ensures
        description matches Some(found) ==> description_of(info@) == Some(found@),
        description is None ==> description_of(info@) is None,
{
    char_count_fits(info);
    proof {
        reveal_strlit("Description=");
    }
    let ghost text = info@;
    let ghost key = description_key();
    // Where the line that is being read starts.
    let ghost mut line_start: int = 0;
    // While `on_key` holds, the line is, as far as it has been read, the first
    // `matched` characters of the key; after that, it differs from the key at
    // `differs_at`.
    let mut on_key: bool = true;
    let mut matched: usize = 0;
    let ghost mut differs_at: int = 0;
    // Where the value starts, once a line has been found that starts with the
    // key, and whether the last character read of the value was a carriage
    // return.
    let mut value_start: Option<usize> = None;
    let mut after_return: bool = false;
    let mut index: usize = 0;
    proof {
        assert(text.skip(0) =~= text);
    }
    for c in chars: info.chars()
        invariant
            text == info@,
            chars.seq() == text,
            text.len() <= usize::MAX,
            key == description_key(),
            key.len() == DESCRIPTION_KEY_LEN,
            index == chars.index(),
            0 <= line_start <= index,
            description_of(text) == description_of(text.skip(line_start)),
            forall|i: int| line_start <= i < index ==> text[i] != LINE_FEED,
            value_start is None && on_key ==> {
                &&& matched < DESCRIPTION_KEY_LEN
                &&& index == line_start + matched
                &&& text.subrange(line_start, index as int) == key.take(matched as int)
            },
            value_start is None && !on_key ==> {
                &&& 0 <= differs_at < DESCRIPTION_KEY_LEN
                &&& line_start + differs_at < index
                &&& text[line_start + differs_at] != key[differs_at]
            },
            value_start matches Some(from) ==> {
                &&& from == line_start + DESCRIPTION_KEY_LEN
                &&& from <= index
                &&& text.subrange(line_start, from as int) == key
                &&& after_return <==> from < index && text[index - 1] == CARRIAGE_RETURN
            },
    {
        let ghost rest = text.skip(index + 1);
        match value_start {
            Some(from) => {
                if c == LINE_FEED {
                    let to = if after_return {
                        index - 1
                    } else {
                        index
                    };
                    proof {
                        let value = text.subrange(from as int, to as int);
                        let ending = text.subrange(to as int, index + 1);
                        assert(text.skip(line_start) =~= key + value + ending + rest);
                        assert(after_return ==> ending =~= seq![CARRIAGE_RETURN, LINE_FEED]);
                        assert(!after_return ==> ending =~= seq![LINE_FEED]);
                        description_on_first_line(value, rest);
                    }
                    return Some(info.substring_char(from, to));
                }
                after_return = c == CARRIAGE_RETURN;
            },
            None => {
                if c == LINE_FEED {
                    proof {
                        let line = text.subrange(line_start, index as int);
                        assert(text.skip(line_start) =~= line + seq![LINE_FEED] + rest);
                        lemma_other_line(line, on_key, matched as int, differs_at);
                        description_after_other_line(line, rest);
                        line_start = index + 1;
                        assert(text.subrange(line_start, line_start) =~= key.take(0));
                    }
                    on_key = true;
                    matched = 0;
                } else if on_key {
                    if c == DESCRIPTION_KEY.get_char(matched) {
                        matched = matched + 1;
                        proof {
                            assert(text.subrange(line_start, index + 1) =~= key.take(
                                matched as int,
                            ));
                            assert(key.take(DESCRIPTION_KEY_LEN as int) =~= key);
                        }
                        if matched == DESCRIPTION_KEY_LEN {
                            value_start = Some(index + 1);
                            after_return = false;
                        }
                    } else {
                        on_key = false;
                        proof {
                            differs_at = matched as int;
                        }
                    }
                }
            },
        }
        index = index + 1;
    }
    match value_start {
        Some(from) => {
            proof {
                let value = text.subrange(from as int, index as int);
                assert(text.skip(line_start) =~= key + value);
                description_on_first_line(value, Seq::empty());
            }
            Some(info.substring_char(from, index))
        },
        None => {
            proof {
                let line = text.subrange(line_start, index as int);
                assert(text.skip(line_start) =~= line);
                lemma_other_line(line, on_key, matched as int, differs_at);
                no_description_in_other_line(line);
            }
            None
        },
    }
}

/// A line does not start with the key where it is a proper part of the key
/// (`on_key`, with `matched` characters), and where it differs from the key
/// at `differs_at`.
proof fn lemma_other_line(line: Seq<char>, on_key: bool, matched: int, differs_at: int)
    requires
        description_key().len() == DESCRIPTION_KEY_LEN,
        on_key ==> 0 <= matched < DESCRIPTION_KEY_LEN && line == description_key().take(matched),
        !on_key ==> {
            &&& 0 <= differs_at < DESCRIPTION_KEY_LEN
            &&& differs_at < line.len()
            &&& line[differs_at] != description_key()[differs_at]
        },
    ensures
        !description_key().is_prefix_of(line),
{
    let key = description_key();
    if key.is_prefix_of(line) {
        assert(line.len() >= DESCRIPTION_KEY_LEN);
        assert(line.subrange(0, DESCRIPTION_KEY_LEN as int)[differs_at] == key[differs_at]);
    }
}

} // verus!
