//! Whitespace normalization of fetched chapter text: within a line, runs
//! of blank characters collapse to a single space; runs of blank lines
//! collapse to a single empty line, so paragraph breaks survive but never
//! stack.
use vstd::prelude::*;

use crate::strutil::{chars_of, string_from_chars};

verus! {

/// The characters the normalization folds as blank: ASCII whitespace and
/// the common Unicode blanks, the ideographic space among them.
pub open spec fn is_ws_char(c: char) -> bool {
    ||| c == ' '
    ||| c == '\t'
    ||| c == '\n'
    ||| c == '\r'
    ||| c as u32 == 0x0B
    ||| c as u32 == 0x0C
    ||| c as u32 == 0x85
    ||| c as u32 == 0xA0
    ||| c as u32 == 0x1680
    ||| (0x2000 <= c as u32 && c as u32 <= 0x200A)
    ||| c as u32 == 0x2028
    ||| c as u32 == 0x2029
    ||| c as u32 == 0x202F
    ||| c as u32 == 0x205F
    ||| c as u32 == 0x3000
}

/// Blank within a line: any fold-able character except the line break.
pub open spec fn is_line_ws(c: char) -> bool {
    c != '\n' && is_ws_char(c)
}

/// A line of nothing but blanks (or nothing at all).
pub open spec fn is_blank_line(l: Seq<char>) -> bool {
    forall|i: int| 0 <= i < l.len() ==> is_line_ws(#[trigger] l[i])
}

/// The text split at line breaks; a text without one is a single line.
pub open spec fn split_lines(s: Seq<char>) -> Seq<Seq<char>>
    decreases s.len(),
{
    if s.len() == 0 {
        seq![Seq::<char>::empty()]
    } else {
        let r = split_lines(s.drop_last());
        if s.last() == '\n' {
            r.push(Seq::<char>::empty())
        } else {
            r.update(r.len() - 1, r.last().push(s.last()))
        }
    }
}

/// A line with each maximal run of blanks collapsed to one space.
pub open spec fn collapse_ws(l: Seq<char>) -> Seq<char>
    decreases l.len(),
{
    if l.len() == 0 {
        Seq::<char>::empty()
    } else {
        let r = collapse_ws(l.drop_last());
        if is_line_ws(l.last()) {
            if l.len() >= 2 && is_line_ws(l[l.len() - 2]) {
                r
            } else {
                r.push(' ')
            }
        } else {
            r.push(l.last())
        }
    }
}

/// The lines with each maximal run of blank lines replaced by one empty
/// line.
pub open spec fn squeeze_blank_lines(ls: Seq<Seq<char>>) -> Seq<Seq<char>>
    decreases ls.len(),
{
    if ls.len() == 0 {
        Seq::<Seq<char>>::empty()
    } else {
        let r = squeeze_blank_lines(ls.drop_last());
        if is_blank_line(ls.last()) {
            if ls.len() >= 2 && is_blank_line(ls[ls.len() - 2]) {
                r
            } else {
                r.push(Seq::<char>::empty())
            }
        } else {
            r.push(ls.last())
        }
    }
}

/// The lines joined back with single line breaks.
pub open spec fn join_lines(ls: Seq<Seq<char>>) -> Seq<char>
    decreases ls.len(),
{
    if ls.len() == 0 {
        Seq::<char>::empty()
    } else if ls.len() == 1 {
        ls[0]
    } else {
        join_lines(ls.drop_last()) + seq!['\n'] + ls.last()
    }
}

/// The normalized form of a text: split into lines, blanks collapsed
/// within each line, blank-line runs collapsed to one empty line, joined
/// again.
pub open spec fn normalize_spec(s: Seq<char>) -> Seq<char> {
    join_lines(
        squeeze_blank_lines(split_lines(s).map_values(|l: Seq<char>| collapse_ws(l))),
    )
}

/// Is this character folded as blank?
fn ws_char(c: char) -> (r: bool)
    ensures
        r == is_ws_char(c),
{
    let v = c as u32;
    v == 0x20 || v == 0x09 || v == 0x0A || v == 0x0D || v == 0x0B || v == 0x0C || v == 0x85 || v
        == 0xA0 || v == 0x1680 || (0x2000 <= v && v <= 0x200A) || v == 0x2028 || v == 0x2029 || v
        == 0x202F || v == 0x205F || v == 0x3000
}

/// Is this character blank within a line?
fn line_ws_char(c: char) -> (r: bool)
    ensures
        r == is_line_ws(c),
{
    c != '\n' && ws_char(c)
}

/// Does this line hold nothing but blanks?
fn blank_line(l: &Vec<char>) -> (r: bool)
    ensures
        r == is_blank_line(l@),
{
    let mut k: usize = 0;
    while k < l.len()
        invariant
            0 <= k <= l@.len(),
            forall|i: int| 0 <= i < k ==> is_line_ws(#[trigger] l@[i]),
        decreases l@.len() - k,
    {
        if !line_ws_char(l[k]) {
            return false;
        }
        k += 1;
    }
    true
}

/// The model of a vector of line buffers.
pub open spec fn lines_model(v: Seq<Vec<char>>) -> Seq<Seq<char>> {
    v.map_values(|u: Vec<char>| u@)
}

/// Normalize a chapter text: collapse each run of blanks within a line to
/// one space, and each run of blank lines to one empty line, keeping
/// paragraph breaks.
pub fn normalize_content(text: &str) -> (r: String)
    ensures
        r@ == normalize_spec(text@),
{
    let cs = chars_of(text);

    // split into lines
    let mut done: Vec<Vec<char>> = Vec::new();
    let mut cur: Vec<char> = Vec::new();
    let mut i: usize = 0;
    while i < cs.len()
        invariant
            0 <= i <= cs@.len(),
            split_lines(cs@.take(i as int)) == lines_model(done@).push(cur@),
        decreases cs@.len() - i,
    {
        proof {
            let t = cs@.take(i + 1);
            assert(t.drop_last() =~= cs@.take(i as int));
            assert(t.last() == cs@[i as int]);
        }
        let c = cs[i];
        if c == '\n' {
            done.push(cur);
            cur = Vec::new();
            proof {
                assert(lines_model(done@).push(cur@) =~= split_lines(cs@.take(i + 1)));
            }
        } else {
            cur.push(c);
            proof {
                let r = split_lines(cs@.take(i as int));
                assert(split_lines(cs@.take(i + 1)) == r.update(r.len() - 1, r.last().push(
                    cs@[i as int],
                )));
                assert(lines_model(done@).push(cur@) =~= r.update(r.len() - 1, r.last().push(
                    cs@[i as int],
                )));
            }
        }
        i += 1;
    }
    done.push(cur);
    proof {
        assert(cs@.take(cs@.len() as int) =~= cs@);
        assert(lines_model(done@) =~= split_lines(cs@));
    }
    let lines = done;

    // collapse blanks within each line
    let mut collapsed: Vec<Vec<char>> = Vec::new();
    let mut j: usize = 0;
    while j < lines.len()
        invariant
            0 <= j <= lines@.len(),
            collapsed@.len() == j,
            forall|m: int|
                0 <= m < j ==> lines_model(collapsed@)[m] == collapse_ws(
                    #[trigger] lines_model(lines@)[m],
                ),
        decreases lines@.len() - j,
    {
        let line = &lines[j];
        let mut out: Vec<char> = Vec::new();
        let mut t: usize = 0;
        while t < line.len()
            invariant
                0 <= t <= line@.len(),
                out@ == collapse_ws(line@.take(t as int)),
            decreases line@.len() - t,
        {
            proof {
                let w = line@.take(t + 1);
                assert(w.drop_last() =~= line@.take(t as int));
                assert(w.last() == line@[t as int]);
                if t >= 1 {
                    assert(w[w.len() - 2] == line@[t - 1]);
                }
            }
            let c = line[t];
            if line_ws_char(c) {
                if !(t > 0 && line_ws_char(line[t - 1])) {
                    out.push(' ');
                }
            } else {
                out.push(c);
            }
            t += 1;
        }
        proof {
            assert(line@.take(line@.len() as int) =~= line@);
        }
        collapsed.push(out);
        j += 1;
    }
    proof {
        assert(lines_model(collapsed@) =~= lines_model(lines@).map_values(
            |l: Seq<char>| collapse_ws(l),
        ));
    }

    // collapse runs of blank lines
    let mut sq: Vec<Vec<char>> = Vec::new();
    let mut j: usize = 0;
    while j < collapsed.len()
        invariant
            0 <= j <= collapsed@.len(),
            lines_model(sq@) == squeeze_blank_lines(lines_model(collapsed@).take(j as int)),
        decreases collapsed@.len() - j,
    {
        proof {
            let w = lines_model(collapsed@).take(j + 1);
            assert(w.drop_last() =~= lines_model(collapsed@).take(j as int));
            assert(w.last() == lines_model(collapsed@)[j as int]);
            if j >= 1 {
                assert(w[w.len() - 2] == lines_model(collapsed@)[j - 1]);
            }
        }
        let blank = blank_line(&collapsed[j]);
        if blank {
            if !(j > 0 && blank_line(&collapsed[j - 1])) {
                sq.push(Vec::new());
                proof {
                    assert(lines_model(sq@) =~= squeeze_blank_lines(
                        lines_model(collapsed@).take(j + 1),
                    ));
                }
            }
        } else {
            sq.push(collapsed[j].clone());
            proof {
                assert(sq@[sq@.len() - 1]@ == collapsed@[j as int]@);
                assert(lines_model(sq@) =~= squeeze_blank_lines(
                    lines_model(collapsed@).take(j + 1),
                ));
            }
        }
        j += 1;
    }
    proof {
        assert(lines_model(collapsed@).take(lines_model(collapsed@).len() as int) =~= lines_model(
            collapsed@,
        ));
    }

    // join with single line breaks
    let mut res: Vec<char> = Vec::new();
    let mut j: usize = 0;
    while j < sq.len()
        invariant
            0 <= j <= sq@.len(),
            res@ == join_lines(lines_model(sq@).take(j as int)),
        decreases sq@.len() - j,
    {
        proof {
            let w = lines_model(sq@).take(j + 1);
            assert(w.drop_last() =~= lines_model(sq@).take(j as int));
            assert(w.last() == lines_model(sq@)[j as int]);
        }
        if j > 0 {
            res.push('\n');
        }
        let line = &sq[j];
        let ghost base = res@;
        let mut t: usize = 0;
        while t < line.len()
            invariant
                0 <= t <= line@.len(),
                res@ == base + line@.take(t as int),
            decreases line@.len() - t,
        {
            res.push(line[t]);
            proof {
                assert(base + line@.take(t + 1) =~= (base + line@.take(t as int)).push(
                    line@[t as int],
                ));
            }
            t += 1;
        }
        proof {
            assert(line@.take(line@.len() as int) =~= line@);
            let w = lines_model(sq@).take(j + 1);
            if j == 0 {
                assert(join_lines(w) == w[0]);
                assert(res@ =~= join_lines(w));
            } else {
                assert(join_lines(w) == join_lines(lines_model(sq@).take(j as int))
                    + seq!['\n'] + lines_model(sq@)[j as int]);
                assert(res@ =~= join_lines(w));
            }
        }
        j += 1;
    }
    proof {
        assert(lines_model(sq@).take(lines_model(sq@).len() as int) =~= lines_model(sq@));
    }

    string_from_chars(&res)
}

} // verus!
