use vstd::prelude::*;

use crate::color::{
    hex_literal, hex_value, is_hex6, lemma_hex_literal_reads_back, upper_hex_digit, Rgb8,
};
use crate::decode::decoded_token;
use crate::scan::{
    is_space, lemma_next_newline_is, lemma_next_non_space_is, lemma_next_space_is, split_lines,
    strip_cr, two_tokens,
};
use crate::theme::{
    dump_line, dump_spec, parse_line, parse_line_entry, parse_lines, parse_spec,
};

verus! {

/// A palette name that serialization keeps intact: non-empty and free of
/// whitespace, so that it survives as the first field of its line.
pub open spec fn wf_name(name: Seq<char>) -> bool {
    name.len() > 0 && forall|i: int| 0 <= i < name.len() ==> !is_space(#[trigger] name[i])
}

/// No upper-case hex digit is whitespace or a newline.
proof fn lemma_hex_digit_not_space(n: int)
    requires
        0 <= n < 16,
    ensures
        !is_space(upper_hex_digit(n)),
{
}

/// Every character of a color's hex literal is printable: not whitespace,
/// so in particular neither a newline nor a carriage return.
proof fn lemma_hex_literal_not_space(c: Rgb8)
    ensures
        hex_literal(c).len() == 7,
        forall|k: int| 0 <= k < 7 ==> !is_space(#[trigger] hex_literal(c)[k]),
{
    let s = hex_literal(c);
    assert forall|k: int| 0 <= k < 7 implies !is_space(#[trigger] s[k]) by {
        if k == 0 {
            assert(s[0] == '#');
        } else {
            lemma_hex_digit_not_space(crate::color::hex_digit_of_literal(c, k));
        }
    }
}

/// The serialized line of a well-formed entry: it holds no newline, does not
/// end in a carriage return, and splits back into exactly the name and the
/// hex literal as its two fields.
proof fn lemma_dump_line_wf(p: (Seq<char>, Rgb8))
    requires
        wf_name(p.0),
    ensures
        dump_line(p).len() == p.0.len() + 8,
        forall|k: int| 0 <= k < dump_line(p).len() ==> #[trigger] dump_line(p)[k] != '\n',
        dump_line(p)[dump_line(p).len() - 1] != '\r',
        two_tokens(dump_line(p)) == Some((p.0, hex_literal(p.1))),
{
    let line = dump_line(p);
    let nlen = p.0.len() as int;
    let len = line.len() as int;
    lemma_hex_literal_not_space(p.1);
    assert forall|k: int| 0 <= k < len implies #[trigger] line[k] != '\n' by {
        if k < nlen {
            assert(line[k] == p.0[k]);
            assert(!is_space(p.0[k]));
        } else if k == nlen {
            assert(line[k] == ' ');
        } else {
            assert(line[k] == hex_literal(p.1)[k - nlen - 1]);
        }
    }
    assert(line[len - 1] == hex_literal(p.1)[6]);
    assert(!is_space(line[0]));
    lemma_next_non_space_is(line, 0, 0);
    assert forall|k: int| 0 <= k < nlen implies !is_space(#[trigger] line[k]) by {
        assert(line[k] == p.0[k]);
    }
    assert(line[nlen] == ' ');
    lemma_next_space_is(line, 0, nlen);
    assert(line[nlen + 1] == hex_literal(p.1)[0]);
    lemma_next_non_space_is(line, nlen, nlen + 1);
    assert forall|k: int| nlen + 1 <= k < len implies !is_space(#[trigger] line[k]) by {
        assert(line[k] == hex_literal(p.1)[k - nlen - 1]);
    }
    lemma_next_space_is(line, nlen + 1, len);
    assert(line.subrange(0, nlen) =~= p.0);
    assert(line.subrange(nlen + 1, len) =~= hex_literal(p.1));
}

/// Lenient parsing, one line at a time: a line whose two fields are a name
/// and a hex literal contributes exactly that named color, the channels read
/// from the digit pairs; a line with fewer than two fields, or whose color
/// field decodes to nothing, contributes no entry and raises nothing; and a
/// color field in function notation (holding a parenthesis) is one of the
/// latter, dropped without ever reaching the decoder.
pub proof fn lemma_parse_line_cases(line: Seq<char>, name: Seq<char>, tok: Seq<char>)
    ensures
        two_tokens(line) == Some((name, tok)) && is_hex6(tok) ==> parse_line(line) == Some(
            (name, hex_value(tok)),
        ),
        two_tokens(line) is None ==> parse_line(line) is None,
        two_tokens(line) == Some((name, tok)) && decoded_token(tok) is None ==> parse_line(line)
            is None,
        two_tokens(line) == Some((name, tok)) && tok.contains('(') ==> parse_line(line) is None,
{
    if tok.contains('(') {
        let k = choose|k: int| 0 <= k < tok.len() && tok[k] == '(';
        if is_hex6(tok) {
            assert(k != 0);
            assert(crate::color::is_hex_digit(tok[k]));
        }
    }
}

/// A text of a single line (no newline inside, no carriage return at its
/// end) parses to exactly that line's contribution.
pub proof fn lemma_parse_single_line(line: Seq<char>)
    requires
        line.len() > 0,
        forall|k: int| 0 <= k < line.len() ==> #[trigger] line[k] != '\n',
        line[line.len() - 1] != '\r',
    ensures
        parse_spec(line) == parse_line_entry(line),
{
    lemma_next_newline_is(line, 0, line.len() as int);
    assert(strip_cr(line) == line);
    assert(split_lines(line) =~~= seq![line]);
    assert(seq![line].drop_first() =~= Seq::<Seq<char>>::empty());
    assert(parse_lines(Seq::<Seq<char>>::empty()) == Seq::<(Seq<char>, Rgb8)>::empty());
    assert(parse_spec(line) =~~= parse_line_entry(line));
}

/// Serialization round trip: a palette whose names are non-empty and free
/// of whitespace (its values are 8-bit by construction) is reproduced
/// exactly, names and values both, by parsing its own serialized text.
pub proof fn lemma_dump_parse_round_trip(ps: Seq<(Seq<char>, Rgb8)>)
    requires
        forall|i: int| 0 <= i < ps.len() ==> wf_name((#[trigger] ps[i]).0),
    ensures
        parse_spec(dump_spec(ps)) == ps,
    decreases ps.len(),
{
    if ps.len() == 0 {
        assert(split_lines(dump_spec(ps)) == Seq::<Seq<char>>::empty());
        assert(parse_spec(dump_spec(ps)) =~~= ps);
    } else {
        let head = ps[0];
        let line = dump_line(head);
        lemma_dump_line_wf(head);
        lemma_hex_literal_reads_back(head.1);
        assert(parse_line(line) == Some((head.0, head.1)));
        assert(head == (head.0, head.1));
        assert(parse_line_entry(line) =~~= seq![head]);
        if ps.len() == 1 {
            lemma_parse_single_line(line);
            assert(parse_spec(dump_spec(ps)) =~~= ps);
        } else {
            let rest = ps.drop_first();
            let text = dump_spec(ps);
            let tail_text = dump_spec(rest);
            assert(text == line + seq!['\n'] + tail_text);
            assert forall|k: int| 0 <= k < line.len() implies #[trigger] text[k] != '\n' by {
                assert(text[k] == line[k]);
            }
            assert(text[line.len() as int] == '\n');
            lemma_next_newline_is(text, 0, line.len() as int);
            assert(text.take(line.len() as int) =~= line);
            assert(strip_cr(line) == line);
            assert(text.skip(line.len() as int + 1) =~= tail_text);
            assert(split_lines(text) == seq![line] + split_lines(tail_text));
            let tail_lines = split_lines(tail_text);
            assert((seq![line] + tail_lines)[0] == line);
            assert((seq![line] + tail_lines).drop_first() =~= tail_lines);
            assert(parse_lines(seq![line] + tail_lines) == parse_line_entry(line) + parse_lines(
                tail_lines,
            ));
            assert forall|i: int| 0 <= i < rest.len() implies wf_name(
                (#[trigger] rest[i]).0,
            ) by {
                assert(rest[i] == ps[i + 1]);
            }
            lemma_dump_parse_round_trip(rest);
            assert(parse_spec(dump_spec(ps)) =~~= seq![head] + rest);
            assert(seq![head] + rest =~~= ps);
        }
    }
}

} // verus!
