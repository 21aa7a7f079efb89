//! The storage format: one item per line, each line terminated by `'\n'`,
//! with the serializer, the parser, and the round-trip proof.

use vstd::prelude::*;
use crate::no_newlines;
use crate::seq_views;

verus! {

/// The file text for a list: each item in order, each followed by `'\n'`.
pub open spec fn spec_serialize(items: Seq<Seq<char>>) -> Seq<char>
    decreases items.len(),
{
    if items.len() == 0 {
        Seq::empty()
    } else {
        items[0] + seq!['\n'] + spec_serialize(items.drop_first())
    }
}

/// Extends the first item of `items` with `c` at the front, or starts a new
/// single item when `items` is empty.
pub open spec fn prepend_first(c: char, items: Seq<Seq<char>>) -> Seq<Seq<char>> {
    if items.len() == 0 {
        seq![seq![c]]
    } else {
        seq![seq![c] + items[0]] + items.drop_first()
    }
}

/// The items encoded by file text: each `'\n'`-terminated segment is one
/// item, and a final segment without a terminator is one item too, so a
/// trailing empty segment yields nothing.
pub open spec fn spec_parse(s: Seq<char>) -> Seq<Seq<char>>
    decreases s.len(),
{
    if s.len() == 0 {
        Seq::empty()
    } else if s[0] == '\n' {
        seq![Seq::<char>::empty()] + spec_parse(s.drop_first())
    } else {
        prepend_first(s[0], spec_parse(s.drop_first()))
    }
}

/// Serializing one more item appends that item and a `'\n'` to the text.
pub proof fn lemma_serialize_push(items: Seq<Seq<char>>, x: Seq<char>)
    ensures
        spec_serialize(items.push(x)) == spec_serialize(items) + x + seq!['\n'],
    decreases items.len(),
{
    if items.len() == 0 {
        assert(items.push(x).drop_first() =~= items);
        assert(spec_serialize(items.push(x)) =~= spec_serialize(items) + x + seq!['\n']);
    } else {
        assert(items.push(x).drop_first() =~= items.drop_first().push(x));
        lemma_serialize_push(items.drop_first(), x);
        assert(spec_serialize(items.push(x)) =~= spec_serialize(items) + x + seq!['\n']);
    }
}

/// Parsing text that starts with a `'\n'`-free line and its terminator
/// yields that line and then whatever the rest encodes.
pub proof fn lemma_parse_line(line: Seq<char>, rest: Seq<char>)
    requires
        !line.contains('\n'),
    ensures
        spec_parse(line + seq!['\n'] + rest) == seq![line] + spec_parse(rest),
    decreases line.len(),
{
    let s = line + seq!['\n'] + rest;
    if line.len() == 0 {
        assert(s[0] == '\n');
        assert(s.drop_first() =~= rest);
        assert(line =~= Seq::<char>::empty());
        assert(spec_parse(s) =~= seq![line] + spec_parse(rest));
    } else {
        assert(line[0] != '\n') by {
            assert(line.contains(line[0]) == line.contains('\n') || line[0] != '\n');
        }
        assert(s[0] == line[0]);
        assert(!line.drop_first().contains('\n')) by {
            if line.drop_first().contains('\n') {
                let k = choose|k: int|
                    0 <= k < line.drop_first().len() && line.drop_first()[k] == '\n';
                assert(line[k + 1] == '\n');
            }
        }
        assert(s.drop_first() =~= line.drop_first() + seq!['\n'] + rest);
        lemma_parse_line(line.drop_first(), rest);
        let tail = seq![line.drop_first()] + spec_parse(rest);
        assert(spec_parse(s.drop_first()) == tail);
        assert(tail.len() > 0);
        assert(seq![line[0]] + tail[0] =~= line);
        assert(tail.drop_first() =~= spec_parse(rest));
        assert(spec_parse(s) =~= seq![line] + spec_parse(rest));
    }
}

/// Text without any `'\n'` parses as a single item when it is non-empty.
pub proof fn lemma_parse_unterminated(s: Seq<char>)
    requires
        !s.contains('\n'),
        s.len() > 0,
    ensures
        spec_parse(s) == seq![s],
    decreases s.len(),
{
    assert(s[0] != '\n') by {
        assert(s.contains(s[0]) == s.contains('\n') || s[0] != '\n');
    }
    if s.len() == 1 {
        assert(s.drop_first() =~= Seq::<char>::empty());
        assert(spec_parse(s.drop_first()) == Seq::<Seq<char>>::empty());
        assert(seq![s[0]] =~= s);
        assert(spec_parse(s) =~= seq![s]);
    } else {
        assert(!s.drop_first().contains('\n')) by {
            if s.drop_first().contains('\n') {
                let k = choose|k: int| 0 <= k < s.drop_first().len() && s.drop_first()[k] == '\n';
                assert(s[k + 1] == '\n');
            }
        }
        lemma_parse_unterminated(s.drop_first());
        let tail = seq![s.drop_first()];
        assert(seq![s[0]] + tail[0] =~= s);
        assert(spec_parse(s) =~= seq![s]);
    }
}

/// Round trip: serializing a list and parsing the text back reproduces the
/// identical ordered sequence of items, provided no item contains an
/// embedded `'\n'`.
pub proof fn lemma_round_trip(items: Seq<Seq<char>>)
    requires
        no_newlines(items),
    ensures
        spec_parse(spec_serialize(items)) == items,
    decreases items.len(),
{
    if items.len() == 0 {
        assert(spec_parse(spec_serialize(items)) =~= items);
    } else {
        assert(no_newlines(items.drop_first())) by {
            assert(forall|i: int|
                0 <= i < items.drop_first().len() ==> items.drop_first()[i] == items[i + 1]);
        }
        lemma_round_trip(items.drop_first());
        assert(!items[0].contains('\n'));
        lemma_parse_line(items[0], spec_serialize(items.drop_first()));
        assert(spec_parse(spec_serialize(items)) =~= items);
    }
}

/// Writes the list in the storage format: each item in order, each followed
/// by a line feed.
pub fn serialize_todos(todos: &Vec<String>) -> (r: String)
    ensures
        r@ == spec_serialize(seq_views(todos@)),
{
    let items = Ghost(seq_views(todos@));
    let mut out = String::new();
    let mut i: usize = 0;
    proof {
        reveal_strlit("\n");
        assert(spec_serialize(items@.take(0)) =~= Seq::<char>::empty());
    }
    while i < todos.len()
        invariant
            i <= todos@.len(),
            items@ == seq_views(todos@),
            items@.len() == todos@.len(),
            forall|k: int| 0 <= k < todos@.len() ==> items@[k] == todos@[k]@,
            out@ == spec_serialize(items@.take(i as int)),
        decreases todos@.len() - i,
    {
        out.append(todos[i].as_str());
        out.append("\n");
        proof {
            reveal_strlit("\n");
            assert("\n"@ =~= seq!['\n']);
            lemma_serialize_push(items@.take(i as int), items@[i as int]);
            assert(items@.take(i + 1) =~= items@.take(i as int).push(items@[i as int]));
            assert(out@ =~= spec_serialize(items@.take(i + 1)));
        }
        i += 1;
    }
    proof {
        assert(items@.take(todos@.len() as int) =~= items@);
    }
    out
}

/// Reads a list back from file text: one item per `'\n'`-terminated line,
/// plus one item for a final unterminated segment, if any.
pub fn parse_todos(content: &str) -> (r: Vec<String>)
    ensures
        seq_views(r@) == spec_parse(content@),
{
    let n = content.unicode_len();
    let mut out: Vec<String> = Vec::new();
    let mut start: usize = 0;
    let mut i: usize = 0;
    proof {
        assert(content@.skip(0) =~= content@);
        assert(seq_views(out@) + spec_parse(content@) =~= spec_parse(content@));
    }
    while i < n
        invariant
            start <= i <= n,
            n == content@.len(),
            forall|k: int| start <= k < i ==> content@[k] != '\n',
            seq_views(out@) + spec_parse(content@.skip(start as int)) == spec_parse(content@),
        decreases n - i,
    {
        let c = content.get_char(i);
        if c == '\n' {
            let line = content.substring_char(start, i).to_owned();
            let ghost line_view = content@.subrange(start as int, i as int);
            proof {
                assert(!line_view.contains('\n')) by {
                    if line_view.contains('\n') {
                        let k = choose|k: int|
                            0 <= k < line_view.len() && line_view[k] == '\n';
                        assert(content@[start + k] == '\n');
                    }
                }
                assert(content@.skip(start as int) =~= line_view + seq!['\n'] + content@.skip(
                    i + 1,
                ));
                lemma_parse_line(line_view, content@.skip(i + 1));
            }
            let ghost old_out = out@;
            out.push(line);
            proof {
                assert(seq_views(out@) =~= seq_views(old_out).push(line_view));
                assert(seq_views(out@) + spec_parse(content@.skip(i + 1)) =~= seq_views(old_out)
                    + spec_parse(content@.skip(start as int)));
            }
            start = i + 1;
        }
        i += 1;
    }
    if start < n {
        let line = content.substring_char(start, n).to_owned();
        let ghost line_view = content@.subrange(start as int, n as int);
        proof {
            assert(line_view =~= content@.skip(start as int));
            assert(!line_view.contains('\n')) by {
                if line_view.contains('\n') {
                    let k = choose|k: int| 0 <= k < line_view.len() && line_view[k] == '\n';
                    assert(content@[start + k] == '\n');
                }
            }
            lemma_parse_unterminated(line_view);
        }
        let ghost old_out = out@;
        out.push(line);
        proof {
            assert(seq_views(out@) =~= seq_views(old_out).push(line_view));
            assert(seq_views(out@) =~= seq_views(old_out) + spec_parse(
                content@.skip(start as int),
            ));
        }
    } else {
        proof {
            assert(content@.skip(start as int) =~= Seq::<char>::empty());
            assert(seq_views(out@) + spec_parse(content@.skip(start as int)) =~= seq_views(out@));
        }
    }
    out
}

} // verus!
