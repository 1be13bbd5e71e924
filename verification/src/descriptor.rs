//! Parsing of toolchain-generated dependency-descriptor lines.
//!
//! A descriptor line has the form `<output>: <prereq> <prereq> ...`. Every
//! space that is not immediately preceded by a backslash separates two
//! fields; the pair `\ ` inside a field stands for a literal space belonging
//! to the path. The first field must end with `:`; stripping that colon
//! yields the declared output path, and the remaining fields are its
//! prerequisites in order.

use crate::errors::BuildError;
use vstd::prelude::*;
use vstd::string::StrSliceExecFns;
use vstd::string::StringExecFns;

verus! {

/// `ss` with `p` prepended onto its first field.
pub open spec fn grow_first(p: Seq<char>, ss: Seq<Seq<char>>) -> Seq<Seq<char>> {
    if ss.len() == 0 {
        ss
    } else {
        ss.update(0, p + ss[0])
    }
}

/// The fields of a descriptor line: the line is cut at every unescaped space
/// (a space not immediately preceded by a backslash), and inside a field the
/// escape pair `\ ` stands for one literal space.
pub open spec fn split_fields(s: Seq<char>) -> Seq<Seq<char>>
    decreases s.len(),
{
    if s.len() == 0 {
        seq![Seq::<char>::empty()]
    } else if s[0] == ' ' {
        seq![Seq::<char>::empty()] + split_fields(s.skip(1))
    } else if s[0] == '\\' && s.len() >= 2 && s[1] == ' ' {
        grow_first(seq![' '], split_fields(s.skip(2)))
    } else {
        grow_first(seq![s[0]], split_fields(s.skip(1)))
    }
}

/// Splitting yields at least one field, even on an empty line.
pub proof fn lemma_split_fields_nonempty(s: Seq<char>)
    ensures
        split_fields(s).len() >= 1,
    decreases s.len(),
{
    if s.len() == 0 {
    } else if s[0] == ' ' {
        lemma_split_fields_nonempty(s.skip(1));
    } else if s[0] == '\\' && s.len() >= 2 && s[1] == ' ' {
        lemma_split_fields_nonempty(s.skip(2));
    } else {
        lemma_split_fields_nonempty(s.skip(1));
    }
}

proof fn lemma_grow_first_empty(ss: Seq<Seq<char>>)
    requires
        ss.len() >= 1,
    ensures
        grow_first(Seq::<char>::empty(), ss) == ss,
{
    assert(Seq::<char>::empty() + ss[0] =~= ss[0]);
    assert(grow_first(Seq::<char>::empty(), ss) =~= ss);
}

proof fn lemma_grow_first_compose(p: Seq<char>, q: Seq<char>, ss: Seq<Seq<char>>)
    requires
        ss.len() >= 1,
    ensures
        grow_first(p, grow_first(q, ss)) == grow_first(p + q, ss),
{
    assert(p + (q + ss[0]) =~= (p + q) + ss[0]);
    assert(grow_first(p, grow_first(q, ss)) =~= grow_first(p + q, ss));
}

/// Splits a descriptor line into its fields, undoing the `\ ` escaping.
pub fn parse_fields(line: &str) -> (fields: Vec<String>)
    ensures
        fields.deep_view() == split_fields(line@),
        fields.len() >= 1,
{
    let len = line.unicode_len();
    let mut fields: Vec<String> = Vec::new();
    let mut cur = String::new();
    let mut i: usize = 0;
    proof {
        lemma_split_fields_nonempty(line@);
        assert(line@.skip(0) =~= line@);
        lemma_grow_first_empty(split_fields(line@));
        assert(fields.deep_view() =~= Seq::<Seq<char>>::empty());
    }
    while i < len
        invariant
            len as nat == line@.len(),
            i <= len,
            split_fields(line@) == fields.deep_view() + grow_first(
                cur@,
                split_fields(line@.skip(i as int)),
            ),
        decreases len - i,
    {
        let ghost rest = line@.skip(i as int);
        proof {
            assert(rest.len() == len - i);
            assert(rest[0] == line@[i as int]);
        }
        let c = line.get_char(i);
        if c == ' ' {
            proof {
                assert(rest.skip(1) =~= line@.skip(i + 1));
                lemma_split_fields_nonempty(line@.skip(i + 1));
                // the field before this separator is exactly `cur`
                assert(grow_first(cur@, split_fields(rest)) =~= seq![cur@] + split_fields(
                    line@.skip(i + 1),
                )) by {
                    assert(cur@ + Seq::<char>::empty() =~= cur@);
                };
                lemma_grow_first_empty(split_fields(line@.skip(i + 1)));
            }
            let ghost old_fields = fields.deep_view();
            fields.push(cur);
            proof {
                assert(fields.deep_view() =~= old_fields.push(cur@));
                assert(old_fields.push(cur@) + grow_first(
                    Seq::<char>::empty(),
                    split_fields(line@.skip(i + 1)),
                ) =~= old_fields + (seq![cur@] + split_fields(line@.skip(i + 1))));
            }
            cur = String::new();
            i = i + 1;
        } else if c == '\\' && i + 1 < len && line.get_char(i + 1) == ' ' {
            proof {
                assert(rest[1] == line@[i + 1]);
                assert(rest.skip(2) =~= line@.skip(i + 2));
                lemma_split_fields_nonempty(line@.skip(i + 2));
                lemma_grow_first_compose(cur@, seq![' '], split_fields(line@.skip(i + 2)));
                assert(cur@ + seq![' '] =~= cur@.push(' '));
            }
            cur.push(' ');
            i = i + 2;
        } else {
            proof {
                assert(rest.skip(1) =~= line@.skip(i + 1));
                lemma_split_fields_nonempty(line@.skip(i + 1));
                // the escape branch of `split_fields` does not apply here
                if c == '\\' {
                    assert(i + 1 >= len || line@[i + 1] != ' ');
                    assert(rest.len() >= 2 ==> rest[1] != ' ');
                }
                lemma_grow_first_compose(cur@, seq![c], split_fields(line@.skip(i + 1)));
                assert(cur@ + seq![c] =~= cur@.push(c));
            }
            cur.push(c);
            i = i + 1;
        }
    }
    proof {
        assert(line@.skip(i as int) =~= Seq::<char>::empty());
        assert(grow_first(cur@, split_fields(line@.skip(i as int))) =~= seq![cur@]) by {
            assert(cur@ + Seq::<char>::empty() =~= cur@);
        };
    }
    let ghost old_fields = fields.deep_view();
    fields.push(cur);
    proof {
        assert(fields.deep_view() =~= old_fields.push(cur@));
        assert(old_fields.push(cur@) =~= old_fields + seq![cur@]);
    }
    fields
}

/// `p` with every space escaped as `\ `: the form a path takes inside a
/// descriptor line.
pub open spec fn escape_path(p: Seq<char>) -> Seq<char>
    decreases p.len(),
{
    if p.len() == 0 {
        p
    } else if p[0] == ' ' {
        seq!['\\', ' '] + escape_path(p.skip(1))
    } else {
        seq![p[0]] + escape_path(p.skip(1))
    }
}

/// The paths escaped and joined with single spaces: the layout of a
/// descriptor line's field list.
pub open spec fn join_escaped(paths: Seq<Seq<char>>) -> Seq<char>
    decreases paths.len(),
{
    if paths.len() == 0 {
        Seq::<char>::empty()
    } else if paths.len() == 1 {
        escape_path(paths[0])
    } else {
        escape_path(paths[0]) + seq![' '] + join_escaped(paths.skip(1))
    }
}

/// An escaped path never starts with a bare space.
proof fn lemma_escape_path_first(p: Seq<char>)
    requires
        p.len() > 0,
    ensures
        escape_path(p).len() > 0,
        escape_path(p)[0] != ' ',
{
}

/// Splitting a line that starts with an escaped path recovers that path as a
/// prefix of the first field, provided the path does not end in a lone
/// backslash that would capture a following separator space.
proof fn lemma_split_escaped_prefix(p: Seq<char>, s: Seq<char>)
    requires
        s.len() > 0 && s[0] == ' ' ==> p.len() == 0 || p.last() != '\\',
    ensures
        split_fields(escape_path(p) + s) == grow_first(p, split_fields(s)),
    decreases p.len(),
{
    if p.len() == 0 {
        assert(escape_path(p) + s =~= s);
        lemma_split_fields_nonempty(s);
        lemma_grow_first_empty(split_fields(s));
    } else if p[0] == ' ' {
        let t = escape_path(p.skip(1)) + s;
        let w = seq!['\\', ' '] + t;
        assert(escape_path(p) + s =~= w);
        assert(w[0] == '\\' && w.len() >= 2 && w[1] == ' ');
        assert(w.skip(2) =~= t);
        if p.len() > 1 {
            assert(p.skip(1).last() == p.last());
        }
        lemma_split_escaped_prefix(p.skip(1), s);
        lemma_split_fields_nonempty(s);
        lemma_grow_first_compose(seq![' '], p.skip(1), split_fields(s));
        assert(seq![' '] + p.skip(1) =~= p);
    } else {
        let t = escape_path(p.skip(1)) + s;
        let w = seq![p[0]] + t;
        assert(escape_path(p) + s =~= w);
        assert(w[0] == p[0] && p[0] != ' ');
        // the escape branch of `split_fields` does not apply to `w`
        if w.len() >= 2 && w[0] == '\\' {
            if p.len() > 1 {
                lemma_escape_path_first(p.skip(1));
                assert(w[1] == escape_path(p.skip(1))[0]);
                assert(w[1] != ' ');
            } else {
                assert(p.last() == p[0]);
                assert(w[1] == s[0]);
                assert(w[1] != ' ');
            }
        }
        assert(w.skip(1) =~= t);
        if p.len() > 1 {
            assert(p.skip(1).last() == p.last());
        }
        lemma_split_escaped_prefix(p.skip(1), s);
        lemma_split_fields_nonempty(s);
        lemma_grow_first_compose(seq![p[0]], p.skip(1), split_fields(s));
        assert(seq![p[0]] + p.skip(1) =~= p);
    }
}

/// Escaping round-trip: joining any non-empty sequence of paths with the
/// escaping rule and then splitting the joined line reproduces the original
/// paths exactly. The only paths excluded are those that end in a backslash
/// while another path follows: there the trailing backslash would make the
/// separator space look escaped.
pub proof fn lemma_escape_round_trip(paths: Seq<Seq<char>>)
    requires
        paths.len() >= 1,
        forall|k: int|
            0 <= k < paths.len() - 1 ==> ((#[trigger] paths[k]).len() == 0 || paths[k].last()
                != '\\'),
    ensures
        split_fields(join_escaped(paths)) == paths,
    decreases paths.len(),
{
    if paths.len() == 1 {
        lemma_split_escaped_prefix(paths[0], Seq::<char>::empty());
        assert(escape_path(paths[0]) + Seq::<char>::empty() =~= escape_path(paths[0]));
        assert(grow_first(paths[0], split_fields(Seq::<char>::empty())) =~= seq![paths[0]]) by {
            assert(paths[0] + Seq::<char>::empty() =~= paths[0]);
        };
        assert(seq![paths[0]] =~= paths);
    } else {
        let s = seq![' '] + join_escaped(paths.skip(1));
        assert(join_escaped(paths) =~= escape_path(paths[0]) + s);
        lemma_split_escaped_prefix(paths[0], s);
        assert(s.skip(1) =~= join_escaped(paths.skip(1)));
        assert(forall|k: int|
            0 <= k < paths.skip(1).len() - 1 ==> ((#[trigger] paths.skip(1)[k]).len() == 0
                || paths.skip(1)[k].last() != '\\'));
        lemma_escape_round_trip(paths.skip(1));
        assert(split_fields(s) =~= seq![Seq::<char>::empty()] + paths.skip(1));
        assert(grow_first(paths[0], seq![Seq::<char>::empty()] + paths.skip(1)) =~= paths) by {
            assert(paths[0] + Seq::<char>::empty() =~= paths[0]);
        };
    }
}

/// `escape_path` distributes over concatenation.
proof fn lemma_escape_path_concat(a: Seq<char>, b: Seq<char>)
    ensures
        escape_path(a + b) == escape_path(a) + escape_path(b),
    decreases a.len(),
{
    if a.len() == 0 {
        assert(a + b =~= b);
        assert(escape_path(a) + escape_path(b) =~= escape_path(b));
    } else {
        assert((a + b)[0] == a[0]);
        assert((a + b).skip(1) =~= a.skip(1) + b);
        lemma_escape_path_concat(a.skip(1), b);
        if a[0] == ' ' {
            assert(escape_path(a + b) =~= escape_path(a) + escape_path(b));
        } else {
            assert(escape_path(a + b) =~= escape_path(a) + escape_path(b));
        }
    }
}

/// Appending one more path extends the joined line by a separator and the
/// escaped path.
proof fn lemma_join_escaped_push(paths: Seq<Seq<char>>, p: Seq<char>)
    requires
        paths.len() >= 1,
    ensures
        join_escaped(paths.push(p)) == join_escaped(paths) + seq![' '] + escape_path(p),
    decreases paths.len(),
{
    if paths.len() == 1 {
        assert(paths.push(p).skip(1) =~= seq![p]);
        assert(paths.push(p)[0] == paths[0]);
        assert(seq![p][0] == p && seq![p].len() == 1);
        assert(join_escaped(seq![p]) == escape_path(p));
        assert(join_escaped(paths.push(p)) =~= escape_path(paths[0]) + seq![' '] + escape_path(p));
    } else {
        assert(paths.push(p).skip(1) =~= paths.skip(1).push(p));
        lemma_join_escaped_push(paths.skip(1), p);
        assert(join_escaped(paths.push(p)) =~= join_escaped(paths) + seq![' '] + escape_path(p));
    }
}

/// Joins the paths into one descriptor-style field list, escaping every
/// space as `\ ` and separating the paths with single spaces.
pub fn join_paths(paths: &Vec<String>) -> (r: String)
    ensures
        r@ == join_escaped(paths.deep_view()),
{
    let mut r = String::new();
    let mut i: usize = 0;
    proof {
        assert(paths.deep_view().take(0) =~= Seq::<Seq<char>>::empty());
    }
    while i < paths.len()
        invariant
            i <= paths.len(),
            r@ == join_escaped(paths.deep_view().take(i as int)),
        decreases paths.len() - i,
    {
        if i > 0 {
            r.push(' ');
        }
        let ghost base = r@;
        let p = &paths[i];
        let plen = p.as_str().unicode_len();
        let mut j: usize = 0;
        proof {
            assert(p@.take(0) =~= Seq::<char>::empty());
        }
        while j < plen
            invariant
                j <= plen,
                plen as nat == p@.len(),
                r@ == base + escape_path(p@.take(j as int)),
            decreases plen - j,
        {
            let c = p.as_str().get_char(j);
            proof {
                assert(p@.take(j + 1) =~= p@.take(j as int) + seq![p@[j as int]]);
                lemma_escape_path_concat(p@.take(j as int), seq![p@[j as int]]);
                assert(seq![p@[j as int]].skip(1) =~= Seq::<char>::empty());
                assert(seq![p@[j as int]][0] == p@[j as int]);
                assert(seq![p@[j as int]].len() == 1);
                assert(escape_path(Seq::<char>::empty()) == Seq::<char>::empty());
                if p@[j as int] == ' ' {
                    assert(escape_path(seq![p@[j as int]]) =~= seq!['\\', ' ']);
                } else {
                    assert(escape_path(seq![p@[j as int]]) =~= seq![p@[j as int]]);
                }
            }
            if c == ' ' {
                r.push('\\');
                r.push(' ');
                proof {
                    assert(r@ =~= base + escape_path(p@.take(j + 1)));
                }
            } else {
                r.push(c);
                proof {
                    assert(r@ =~= base + escape_path(p@.take(j + 1)));
                }
            }
            j = j + 1;
        }
        proof {
            assert(p@.take(plen as int) =~= p@);
            let dv = paths.deep_view();
            assert(dv[i as int] == p@);
            assert(dv.take(i + 1) =~= dv.take(i as int).push(dv[i as int]));
            if i == 0 {
                assert(dv.take(1) =~= seq![dv[0]]);
                assert(r@ =~= escape_path(dv[0]));
            } else {
                lemma_join_escaped_push(dv.take(i as int), dv[i as int]);
                assert(r@ =~= join_escaped(dv.take(i as int)) + seq![' '] + escape_path(
                    dv[i as int],
                ));
            }
        }
        i = i + 1;
    }
    proof {
        assert(paths.deep_view().take(i as int) =~= paths.deep_view());
    }
    r
}

/// The prefix of `s` before its first newline (the whole of `s` when it has
/// none).
pub open spec fn spec_line_prefix(s: Seq<char>) -> Seq<char>
    decreases s.len(),
{
    if s.len() == 0 {
        s
    } else if s[0] == '\n' {
        Seq::<char>::empty()
    } else {
        seq![s[0]] + spec_line_prefix(s.skip(1))
    }
}

/// The first line of a descriptor file's content: the prefix before the
/// first newline, with one trailing carriage return stripped.
pub open spec fn spec_first_line(s: Seq<char>) -> Seq<char> {
    let lp = spec_line_prefix(s);
    if lp.len() > 0 && lp.last() == '\r' {
        lp.drop_last()
    } else {
        lp
    }
}

/// The line prefix is the longest newline-free prefix.
proof fn lemma_line_prefix_take(s: Seq<char>, n: int)
    requires
        0 <= n <= s.len(),
        forall|j: int| 0 <= j < n ==> s[j] != '\n',
        n < s.len() ==> s[n] == '\n',
    ensures
        spec_line_prefix(s) == s.take(n),
    decreases s.len(),
{
    if n == 0 {
        assert(s.take(0) =~= Seq::<char>::empty());
        if s.len() > 0 {
            assert(s[0] == '\n');
        } else {
            assert(spec_line_prefix(s) =~= s.take(0));
        }
    } else {
        assert(s[0] != '\n');
        lemma_line_prefix_take(s.skip(1), n - 1);
        assert(spec_line_prefix(s) =~= s.take(n)) by {
            assert(s.skip(1).take(n - 1) =~= s.take(n).skip(1));
        };
    }
}

/// Extracts the first line of a descriptor file's content, without its line
/// terminator. Only this line is consulted; any further lines are ignored, a
/// documented single-output limitation.
pub fn first_line(content: &str) -> (r: String)
    ensures
        r@ == spec_first_line(content@),
{
    let len = content.unicode_len();
    let mut n: usize = len;
    let mut k: usize = 0;
    while k < len
        invariant
            k <= len,
            len as nat == content@.len(),
            n == len || (n < k && content@[n as int] == '\n'),
            forall|j: int| 0 <= j < (if n < k { n as int } else { k as int }) ==> content@[j] != '\n',
        decreases len - k,
    {
        if n == len && content.get_char(k) == '\n' {
            n = k;
        }
        k = k + 1;
    }
    proof {
        lemma_line_prefix_take(content@, n as int);
    }
    let end = if n > 0 && content.get_char(n - 1) == '\r' {
        n - 1
    } else {
        n
    };
    let r = content.substring_char(0, end).to_owned();
    proof {
        let lp = spec_line_prefix(content@);
        if n > 0 && content@[n - 1] == '\r' {
            assert(lp.last() == '\r');
            assert(content@.subrange(0, end as int) =~= lp.drop_last());
        } else {
            assert(content@.subrange(0, end as int) =~= lp);
        }
    }
    r
}

/// Parses the first line of a dependency descriptor into the declared output
/// path and the ordered prerequisite paths. The parse succeeds exactly when
/// the first field is non-empty and ends with the `:` separator; `file` names
/// the descriptor in the error raised otherwise.
pub fn parse_descriptor_line(file: &str, line: &str) -> (r: Result<
    (String, Vec<String>),
    BuildError,
>)
    ensures
        r is Ok <==> {
            let first = split_fields(line@)[0];
            first.len() > 0 && first.last() == ':'
        },
        r matches Ok((out, deps)) ==> out@ == split_fields(line@)[0].drop_last()
            && deps.deep_view() == split_fields(line@).skip(1),
        r matches Err(e) ==> e matches BuildError::MalformedDescriptor { file: f } && f@ == file@,
{
    let mut fields = parse_fields(line);
    let flen = fields[0].as_str().unicode_len();
    if flen == 0 {
        return Err(BuildError::MalformedDescriptor { file: file.to_owned() });
    }
    let lastc = fields[0].as_str().get_char(flen - 1);
    if lastc != ':' {
        return Err(BuildError::MalformedDescriptor { file: file.to_owned() });
    }
    let out = fields[0].as_str().substring_char(0, flen - 1).to_owned();
    proof {
        assert(out@ =~= split_fields(line@)[0].drop_last());
    }
    let first = fields.remove(0);
    proof {
        assert(fields.deep_view() =~= split_fields(line@).skip(1));
    }
    Ok((out, fields))
}

} // verus!
