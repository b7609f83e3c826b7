use vstd::prelude::*;

use crate::color::{hex_literal, hex_string, is_hex_digit, is_hex6, Rgb8};
use crate::decode::{decode_color, decoded_token};
use crate::rotate::rotate_rgb;
use crate::scan::{contains_char, first_two_tokens, split_lines, split_lines_exec, two_tokens};

verus! {

/// One named color of the palette.
pub struct ColorPair {
    pub name: String,
    pub value: Rgb8,
}

impl View for ColorPair {
    type V = (Seq<char>, Rgb8);

    open spec fn view(&self) -> (Seq<char>, Rgb8) {
        (self.name@, self.value)
    }
}

impl DeepView for ColorPair {
    type V = (Seq<char>, Rgb8);

    open spec fn deep_view(&self) -> (Seq<char>, Rgb8) {
        self.view()
    }
}

impl ColorPair {
    /// The `#RRGGBB` text of this pair's color.
    pub fn to_hex(&self) -> (s: String)
        ensures
            s@ == hex_literal(self.value),
    {
        hex_string(self.value)
    }
}

/// An ordered sequence of named colors; the order is the order of the
/// surviving input lines and is kept by every transform.
pub struct Theme {
    pub colors: Vec<ColorPair>,
}

impl View for Theme {
    type V = Seq<(Seq<char>, Rgb8)>;

    open spec fn view(&self) -> Seq<(Seq<char>, Rgb8)> {
        self.colors.deep_view()
    }
}

/// What one line contributes to a palette: its first field names the color,
/// its second field must decode to one; a line with fewer than two fields or
/// an undecodable second field contributes nothing.
pub open spec fn parse_line(line: Seq<char>) -> Option<(Seq<char>, Rgb8)> {
    match two_tokens(line) {
        Some(fields) => match decoded_token(fields.1) {
            Some(c) => Some((fields.0, c)),
            None => None,
        },
        None => None,
    }
}

/// One line's contribution as a sequence: one entry, or none.
pub open spec fn parse_line_entry(line: Seq<char>) -> Seq<(Seq<char>, Rgb8)> {
    match parse_line(line) {
        Some(p) => seq![p],
        None => Seq::empty(),
    }
}

/// The palette entries of a sequence of lines, in line order, lines that
/// contribute nothing silently dropped.
pub open spec fn parse_lines(lines: Seq<Seq<char>>) -> Seq<(Seq<char>, Rgb8)>
    decreases lines.len(),
{
    if lines.len() == 0 {
        Seq::empty()
    } else {
        parse_line_entry(lines[0]) + parse_lines(lines.drop_first())
    }
}

/// The palette that a whole text denotes: its lines' entries in order.
pub open spec fn parse_spec(text: Seq<char>) -> Seq<(Seq<char>, Rgb8)> {
    parse_lines(split_lines(text))
}

/// The serialized form of one entry: name, one space, `#RRGGBB`.
pub open spec fn dump_line(p: (Seq<char>, Rgb8)) -> Seq<char> {
    p.0 + seq![' '] + hex_literal(p.1)
}

/// The serialized palette: one line per entry, joined with single newlines
/// and no trailing one.
pub open spec fn dump_spec(ps: Seq<(Seq<char>, Rgb8)>) -> Seq<char>
    decreases ps.len(),
{
    if ps.len() == 0 {
        Seq::empty()
    } else if ps.len() == 1 {
        dump_line(ps[0])
    } else {
        dump_line(ps[0]) + seq!['\n'] + dump_spec(ps.drop_first())
    }
}

/// The inline assignment form of one entry: name, `=`, `#RRGGBB`.
pub open spec fn assignment_line(p: (Seq<char>, Rgb8)) -> Seq<char> {
    p.0 + seq!['='] + hex_literal(p.1)
}

/// Appending a line to a parsed prefix appends that line's contribution.
proof fn lemma_parse_lines_push(lines: Seq<Seq<char>>, line: Seq<char>)
    ensures
        parse_lines(lines.push(line)) == parse_lines(lines) + parse_line_entry(line),
    decreases lines.len(),
{
    if lines.len() == 0 {
        assert(lines.push(line)[0] == line);
        assert(lines.push(line).drop_first() =~= Seq::<Seq<char>>::empty());
        assert(parse_lines(Seq::<Seq<char>>::empty()) == Seq::<(Seq<char>, Rgb8)>::empty());
        assert(parse_lines(lines.push(line)) == parse_line_entry(line) + Seq::<(
            Seq<char>,
            Rgb8,
        )>::empty());
        assert(parse_lines(lines.push(line)) =~~= parse_line_entry(line));
        assert(parse_lines(lines) + parse_line_entry(line) =~~= parse_line_entry(line));
    } else {
        assert(lines.push(line).drop_first() =~= lines.drop_first().push(line));
        lemma_parse_lines_push(lines.drop_first(), line);
        assert(parse_lines(lines.push(line)) =~= parse_lines(lines) + parse_line_entry(line));
    }
}

/// Appending an entry to a serialized prefix appends its line, after a
/// newline when the prefix is not empty.
proof fn lemma_dump_spec_push(ps: Seq<(Seq<char>, Rgb8)>, p: (Seq<char>, Rgb8))
    ensures
        ps.len() == 0 ==> dump_spec(ps.push(p)) == dump_line(p),
        ps.len() > 0 ==> dump_spec(ps.push(p)) == dump_spec(ps) + seq!['\n'] + dump_line(p),
    decreases ps.len(),
{
    if ps.len() == 0 {
        assert(dump_spec(ps.push(p)) =~= dump_line(p));
    } else {
        assert(ps.push(p).drop_first() =~= ps.drop_first().push(p));
        lemma_dump_spec_push(ps.drop_first(), p);
        assert(dump_spec(ps.push(p)) =~= dump_spec(ps) + seq!['\n'] + dump_line(p));
    }
}

impl Theme {
    /// Parses palette text: one entry per line whose first field names a
    /// color its second field decodes to; every other line is dropped with
    /// no error, and entry order is input line order.
    pub fn parse(theme: &str) -> (t: Theme)
        ensures
            t@ == parse_spec(theme@),
    {
        let lines = split_lines_exec(theme);
        let mut colors: Vec<ColorPair> = Vec::new();
        proof {
            assert(lines.deep_view().take(0) =~= Seq::<Seq<char>>::empty());
            assert(colors.deep_view() =~= parse_lines(lines.deep_view().take(0)));
        }
        let mut li: usize = 0;
        while li < lines.len()
            invariant
                0 <= li <= lines.len(),
                lines.deep_view() == split_lines(theme@),
                colors.deep_view() =~= parse_lines(lines.deep_view().take(li as int)),
            decreases lines.len() - li,
        {
            let ghost prev = colors.deep_view();
            let ghost line_view = lines.deep_view()[li as int];
            assert(lines@[li as int]@ == line_view);
            match first_two_tokens(lines[li].as_str()) {
                Some(fields) => {
                    if contains_char(fields.1.as_str(), '(') {
                        // function-notation tokens are dropped unexamined:
                        // the decoder can abort on malformed ones
                        proof {
                            let tok = fields.1@;
                            assert(!is_hex6(tok)) by {
                                let k = choose|k: int|
                                    0 <= k < tok.len() && tok[k] == '(';
                                if is_hex6(tok) {
                                    assert(k != 0);
                                    assert(is_hex_digit(tok[k]));
                                }
                            }
                            assert(parse_line_entry(line_view) =~= Seq::<(
                                Seq<char>,
                                Rgb8,
                            )>::empty());
                        }
                    } else {
                        match decode_color(fields.1.as_str()) {
                            Some(value) => {
                                let pair = ColorPair { name: fields.0, value };
                                colors.push(pair);
                                proof {
                                    assert(colors.deep_view() =~= prev.push((pair.name@, value)));
                                    assert(parse_line_entry(line_view) =~= seq![
                                        (pair.name@, value),
                                    ]);
                                }
                            },
                            None => {
                                proof {
                                    assert(parse_line_entry(line_view) =~= Seq::<(
                                        Seq<char>,
                                        Rgb8,
                                    )>::empty());
                                }
                            },
                        }
                    }
                },
                None => {
                    proof {
                        assert(parse_line_entry(line_view) =~= Seq::<(Seq<char>, Rgb8)>::empty());
                    }
                },
            }
            proof {
                lemma_parse_lines_push(lines.deep_view().take(li as int), line_view);
                assert(lines.deep_view().take(li + 1) =~= lines.deep_view().take(li as int).push(
                    line_view,
                ));
                assert(colors.deep_view() =~= parse_lines(lines.deep_view().take(li + 1)));
            }
            li += 1;
        }
        proof {
            assert(lines.deep_view().take(lines@.len() as int) =~= lines.deep_view());
        }
        Theme { colors }
    }

    /// Serializes the palette back to flat text, entries in order, one per
    /// line, values re-encoded as upper-case `#RRGGBB` literals.
    pub fn dump(&self) -> (s: String)
        ensures
            s@ == dump_spec(self@),
    {
        let mut out = String::new();
        proof {
            assert(self@.take(0) =~= Seq::<(Seq<char>, Rgb8)>::empty());
            assert(out@ =~= dump_spec(self@.take(0)));
        }
        let mut i: usize = 0;
        while i < self.colors.len()
            invariant
                0 <= i <= self.colors.len(),
                self@.len() == self.colors.len(),
                out@ =~= dump_spec(self@.take(i as int)),
            decreases self.colors.len() - i,
        {
            let ghost prefix = self@.take(i as int);
            if i > 0 {
                out.append("\n");
                proof {
                    reveal_strlit("\n");
                }
            }
            out.append(self.colors[i].name.as_str());
            out.append(" ");
            proof {
                reveal_strlit(" ");
            }
            let hex = hex_string(self.colors[i].value);
            out.append(hex.as_str());
            proof {
                assert(self@[i as int] == (self.colors@[i as int].name@, self.colors@[i as int].value));
                lemma_dump_spec_push(prefix, self@[i as int]);
                assert(self@.take(i + 1) =~= prefix.push(self@[i as int]));
                assert(out@ =~= dump_spec(self@.take(i + 1)));
            }
            i += 1;
        }
        proof {
            assert(self@.take(self@.len() as int) =~= self@);
        }
        out
    }

    /// The palette with every color's hue advanced by the step, given in
    /// tenths of a degree.  Names, order and length are unchanged; only the
    /// color values move, and each stays in gamut.
    pub fn rotate(&self, step_tenths_deg: i16) -> (t: Theme)
        ensures
            t@.len() == self@.len(),
            forall|i: int| 0 <= i < self@.len() ==> (#[trigger] t@[i]).0 == self@[i].0,
    {
        let mut colors: Vec<ColorPair> = Vec::new();
        let mut i: usize = 0;
        while i < self.colors.len()
            invariant
                0 <= i <= self.colors.len(),
                self@.len() == self.colors.len(),
                colors.deep_view().len() == i,
                forall|k: int|
                    0 <= k < i ==> (#[trigger] colors.deep_view()[k]).0 == self@[k].0,
            decreases self.colors.len() - i,
        {
            let value = rotate_rgb(self.colors[i].value, step_tenths_deg);
            let name = self.colors[i].name.clone();
            let ghost nv = name@;
            let ghost prev = colors.deep_view();
            colors.push(ColorPair { name, value });
            proof {
                assert(colors.deep_view() =~= prev.push((nv, value)));
                assert(self@[i as int].0 == self.colors@[i as int].name@);
            }
            i += 1;
        }
        Theme { colors }
    }

    /// The inline `name=#RRGGBB` assignment of every entry, in palette
    /// order: the argument list for applying the palette in one command.
    pub fn assignments(&self) -> (v: Vec<String>)
        ensures
            v.deep_view().len() == self@.len(),
            forall|i: int|
                0 <= i < self@.len() ==> #[trigger] v.deep_view()[i] == assignment_line(self@[i]),
    {
        let mut v: Vec<String> = Vec::new();
        let mut i: usize = 0;
        while i < self.colors.len()
            invariant
                0 <= i <= self.colors.len(),
                self@.len() == self.colors.len(),
                v.deep_view().len() == i,
                forall|k: int|
                    0 <= k < i ==> #[trigger] v.deep_view()[k] == assignment_line(self@[k]),
            decreases self.colors.len() - i,
        {
            let mut line = self.colors[i].name.clone();
            line.append("=");
            proof {
                reveal_strlit("=");
            }
            let hex = hex_string(self.colors[i].value);
            line.append(hex.as_str());
            proof {
                assert(self@[i as int] == (self.colors@[i as int].name@, self.colors@[i as int].value));
                assert(line@ =~= assignment_line(self@[i as int]));
            }
            let ghost prev = v.deep_view();
            let ghost lv = line@;
            v.push(line);
            proof {
                assert(v.deep_view() =~= prev.push(lv));
            }
            i += 1;
        }
        v
    }
}

} // verus!
