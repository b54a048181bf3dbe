//! Normalization of tool output so that two runs of the same tool compare
//! equal: escape sequences, machine paths and timings are removed.
use vstd::prelude::*;
use vstd::utf8::{decode_utf8, encode_utf8, valid_utf8};
use crate::text::{
    chars_of, contains, extend_chars, lemma_trim_end_prefix, is_ws, lines_acc, strip_cr, extend_range, find, find_in, join, join_of,
    lemma_find_from_props, lines, lines_of, lossy_utf8, replace, replace_chars, string_of,
    occurs_at, trim_end, trim_end_len, utf8_bytes, utf8_lossy, views,
};

verus! {

/// The escape character that starts an ANSI control sequence.
pub open spec fn is_esc(c: char) -> bool {
    c == '\u{1b}'
}

/// A final character of a control sequence: `@` through `~`.
pub open spec fn is_csi_final(c: char) -> bool {
    '@' <= c && c <= '~'
}

/// The index just after the final character of a control sequence whose
/// parameters start at `i`, or the end of `s` when it is unterminated.
pub open spec fn csi_end(s: Seq<char>, i: int) -> int
    decreases s.len() - i,
{
    if i >= s.len() {
        s.len() as int
    } else if is_csi_final(s[i]) {
        i + 1
    } else {
        csi_end(s, i + 1)
    }
}

/// `s` from index `i` on, without `ESC [ ... final` control sequences.
pub open spec fn strip_ansi_from(s: Seq<char>, i: int) -> Seq<char>
    decreases s.len() - i,
{
    if i < 0 || i >= s.len() {
        Seq::empty()
    } else if i + 1 < s.len() && is_esc(s[i]) && s[i + 1] == '[' {
        let j = csi_end(s, i + 2);
        if j <= i || j > s.len() {
            Seq::empty()
        } else {
            strip_ansi_from(s, j)
        }
    } else {
        seq![s[i]] + strip_ansi_from(s, i + 1)
    }
}

/// The text without its ANSI control sequences.
pub open spec fn strip_ansi_spec(s: Seq<char>) -> Seq<char> {
    strip_ansi_from(s, 0)
}

proof fn lemma_csi_end(s: Seq<char>, i: int)
    requires
        0 <= i <= s.len(),
    ensures
        i <= csi_end(s, i) <= s.len(),
        i < s.len() ==> i < csi_end(s, i),
    decreases s.len() - i,
{
    if i < s.len() && !is_csi_final(s[i]) {
        lemma_csi_end(s, i + 1);
    }
}

fn skip_csi(s: &[char], i: usize) -> (j: usize)
    requires
        i <= s@.len(),
    ensures
        j == csi_end(s@, i as int),
    decreases s@.len() - i,
{
    if i >= s.len() {
        s.len()
    } else if '@' <= s[i] && s[i] <= '~' {
        i + 1
    } else {
        skip_csi(s, i + 1)
    }
}

/// Removes `ESC [ ... final` control sequences from a character sequence.
pub fn strip_ansi_chars(s: &[char]) -> (out: Vec<char>)
    ensures
        out@ == strip_ansi_spec(s@),
{
    let mut out: Vec<char> = Vec::new();
    let mut i: usize = 0;
    while i < s.len()
        invariant
            i <= s@.len(),
            out@ + strip_ansi_from(s@, i as int) == strip_ansi_spec(s@),
        decreases s@.len() - i,
    {
        if i + 1 < s.len() && s[i] == '\u{1b}' && s[i + 1] == '[' {
            proof {
                lemma_csi_end(s@, i + 2);
            }
            i = skip_csi(s, i + 2);
        } else {
            let ghost before = out@;
            out.push(s[i]);
            proof {
                assert(before + (seq![s@[i as int]] + strip_ansi_from(s@, i + 1)) =~= out@
                    + strip_ansi_from(s@, i + 1));
            }
            i = i + 1;
        }
    }
    proof {
        assert(out@ + Seq::<char>::empty() =~= out@);
    }
    out
}

/// Removes ANSI control sequences (`ESC [` parameters and a final byte in
/// `@..=~`) from `input`.
pub fn strip_ansi(input: &str) -> (out: String)
    ensures
        out@ == strip_ansi_spec(input@),
{
    let chars = chars_of(input);
    let stripped = strip_ansi_chars(chars.as_slice());
    string_of(stripped.as_slice())
}

/// A timing-bearing line keeps everything up to and including its first
/// timing marker, followed by `<TIME>`; markers are tried in order.
pub open spec fn timing_spec(line: Seq<char>, markers: Seq<Seq<char>>) -> Seq<char>
    decreases markers.len(),
{
    if markers.len() == 0 {
        line
    } else {
        match find(line, markers[0]) {
            Some(i) => line.take(i + markers[0].len()) + "<TIME>"@,
            None => timing_spec(line, markers.drop_first()),
        }
    }
}

/// Replaces what follows the first timing marker of `line` by `<TIME>`.
pub fn normalize_timing_with(line: &[char], markers: &Vec<Vec<char>>) -> (out: Vec<char>)
    ensures
        out@ == timing_spec(line@, views(markers@)),
{
    let mut k: usize = 0;
    proof {
        assert(views(markers@).skip(0) =~= views(markers@));
    }
    while k < markers.len()
        invariant
            k <= markers@.len(),
            timing_spec(line@, views(markers@)) == timing_spec(
                line@,
                views(markers@).skip(k as int),
            ),
        decreases markers@.len() - k,
    {
        let marker = markers[k].as_slice();
        proof {
            assert(views(markers@).skip(k as int)[0] == marker@);
            assert(views(markers@).skip(k as int).drop_first() =~= views(markers@).skip(k + 1));
        }
        match find_in(line, marker, 0) {
            Some(i) => {
                proof {
                    lemma_find_from_props(line@, marker@, 0);
                    assert(line@.len() == line.len() && marker@.len() == marker.len());
                }
                let end: usize = i + marker.len();
                let mut out: Vec<char> = Vec::new();
                extend_range(&mut out, line, 0, end);
                let time = chars_of("<TIME>");
                extend_chars(&mut out, time.as_slice());
                proof {
                    assert(line@.subrange(0, end as int) =~= line@.take(end as int));
                }
                return out;
            },
            None => {},
        }
        k = k + 1;
    }
    proof {
        assert(views(markers@).skip(k as int) =~= Seq::<Seq<char>>::empty());
    }
    let mut out: Vec<char> = Vec::new();
    extend_chars(&mut out, line);
    proof {
        assert(out@ =~= line@);
    }
    out
}

/// Cargo's `Finished ... in 0.42s` progress line, which carries no result.
pub open spec fn is_finished_line(line: Seq<char>) -> bool {
    &&& contains(line, "Finished `"@)
    &&& contains(line, " in "@)
    &&& trim_end(line).len() > 0
    &&& trim_end(line).last() == 's'
}

/// Each line that is not a `Finished` progress line, right-trimmed and with
/// its timing replaced.
pub open spec fn kept_lines(lines: Seq<Seq<char>>, markers: Seq<Seq<char>>) -> Seq<Seq<char>>
    decreases lines.len(),
{
    if lines.len() == 0 {
        Seq::empty()
    } else {
        kept_lines(lines.drop_last(), markers) + if is_finished_line(lines.last()) {
            Seq::<Seq<char>>::empty()
        } else {
            seq![timing_spec(trim_end(lines.last()), markers)]
        }
    }
}

/// The lines without their trailing empty ones.
pub open spec fn drop_trailing_empty(lines: Seq<Seq<char>>) -> Seq<Seq<char>>
    decreases lines.len(),
{
    if lines.len() > 0 && lines.last().len() == 0 {
        drop_trailing_empty(lines.drop_last())
    } else {
        lines
    }
}

/// Applies each `(from, to)` replacement in turn.
pub open spec fn replace_all(s: Seq<char>, subs: Seq<(Seq<char>, Seq<char>)>) -> Seq<char>
    decreases subs.len(),
{
    if subs.len() == 0 {
        s
    } else {
        replace_all(replace(s, subs[0].0, subs[0].1), subs.drop_first())
    }
}

/// Whether a line is a `Finished ... s` progress line.
pub fn finished_line(line: &[char]) -> (b: bool)
    ensures
        b == is_finished_line(line@),
{
    let finished = chars_of("Finished `");
    let within = chars_of(" in ");
    let a = find_in(line, finished.as_slice(), 0);
    let b = find_in(line, within.as_slice(), 0);
    let n = trim_end_len(line);
    proof {
        assert(line@.take(n as int).len() == n);
    }
    a.is_some() && b.is_some() && n > 0 && line[n - 1] == 's'
}

/// Drops trailing empty lines.
pub fn pop_trailing_empty(lines: &mut Vec<Vec<char>>)
    ensures
        views(final(lines)@) == drop_trailing_empty(views(old(lines)@)),
{
    while lines.len() > 0 && lines[lines.len() - 1].len() == 0
        invariant
            drop_trailing_empty(views(lines@)) == drop_trailing_empty(views(old(lines)@)),
        decreases lines@.len(),
    {
        let ghost before = views(lines@);
        lines.pop();
        proof {
            assert(views(lines@) =~= before.drop_last());
        }
    }
}

/// Keeps the non-progress lines, right-trimmed and timing-normalized, and
/// drops trailing empty ones.
pub fn normalize_lines(lines: &Vec<Vec<char>>, markers: &Vec<Vec<char>>) -> (out: Vec<Vec<char>>)
    ensures
        views(out@) == drop_trailing_empty(kept_lines(views(lines@), views(markers@))),
{
    let mut out: Vec<Vec<char>> = Vec::new();
    let mut i: usize = 0;
    while i < lines.len()
        invariant
            i <= lines@.len(),
            views(out@) == kept_lines(views(lines@).take(i as int), views(markers@)),
        decreases lines@.len() - i,
    {
        let line = lines[i].as_slice();
        let ghost before = views(out@);
        proof {
            let t = views(lines@).take(i + 1);
            assert(t.drop_last() =~= views(lines@).take(i as int));
            assert(t.last() == line@);
        }
        if !finished_line(line) {
            let n = trim_end_len(line);
            let mut trimmed: Vec<char> = Vec::new();
            extend_range(&mut trimmed, line, 0, n);
            proof {
                assert(trimmed@ =~= trim_end(line@));
            }
            let normalized = normalize_timing_with(trimmed.as_slice(), markers);
            out.push(normalized);
            proof {
                assert(views(out@) =~= before + seq![timing_spec(trim_end(line@), views(markers@))]);
            }
        } else {
            proof {
                assert(views(out@) =~= before + Seq::<Seq<char>>::empty());
            }
        }
        i = i + 1;
    }
    proof {
        assert(views(lines@).take(lines@.len() as int) =~= views(lines@));
    }
    pop_trailing_empty(&mut out);
    out
}

/// Applies each `(from, to)` replacement in turn.
pub fn replace_each(s: &[char], subs: &Vec<(Vec<char>, Vec<char>)>) -> (out: Vec<char>)
    ensures
        out@ == replace_all(s@, pair_views(subs@)),
{
    let mut cur: Vec<char> = Vec::new();
    extend_chars(&mut cur, s);
    let mut k: usize = 0;
    proof {
        assert(cur@ =~= s@);
        assert(pair_views(subs@).skip(0) =~= pair_views(subs@));
    }
    while k < subs.len()
        invariant
            k <= subs@.len(),
            replace_all(cur@, pair_views(subs@).skip(k as int)) == replace_all(
                s@,
                pair_views(subs@),
            ),
        decreases subs@.len() - k,
    {
        let (from, to) = (&subs[k].0, &subs[k].1);
        proof {
            assert(pair_views(subs@).skip(k as int)[0] == (from@, to@));
            assert(pair_views(subs@).skip(k as int).drop_first() =~= pair_views(subs@).skip(
                k + 1,
            ));
        }
        cur = replace_chars(cur.as_slice(), from.as_slice(), to.as_slice());
        k = k + 1;
    }
    proof {
        assert(pair_views(subs@).skip(k as int) =~= Seq::<(Seq<char>, Seq<char>)>::empty());
    }
    cur
}

/// The views of a vector of pairs of character vectors.
pub open spec fn pair_views(v: Seq<(Vec<char>, Vec<char>)>) -> Seq<(Seq<char>, Seq<char>)> {
    v.map_values(|p: (Vec<char>, Vec<char>)| (p.0@, p.1@))
}

/// Standard output and standard error as one text: each decoded leniently
/// with `\r\n` turned into `\n`, joined by one newline.
pub open spec fn joined_streams(stdout: Seq<u8>, stderr: Seq<u8>) -> Seq<char> {
    replace(lossy_utf8(stdout), "\r\n"@, "\n"@) + "\n"@ + replace(lossy_utf8(stderr), "\r\n"@, "\n"@)
}

/// The normalized text of a tool run: control sequences removed, each
/// `(from, to)` replacement applied, progress lines dropped, timings masked
/// and trailing empty lines removed.
pub open spec fn normalized_text(
    stdout: Seq<u8>,
    stderr: Seq<u8>,
    subs: Seq<(Seq<char>, Seq<char>)>,
    markers: Seq<Seq<char>>,
) -> Seq<char> {
    join(
        drop_trailing_empty(
            kept_lines(lines(replace_all(strip_ansi_spec(joined_streams(stdout, stderr)), subs)), markers),
        ),
        "\n"@,
    )
}

fn crlf_to_lf(bytes: &[u8]) -> (out: Vec<char>)
    ensures
        out@ == replace(lossy_utf8(bytes@), "\r\n"@, "\n"@),
        valid_utf8(bytes@) ==> lossy_utf8(bytes@) == decode_utf8(bytes@),
{
    let text = utf8_lossy(bytes);
    let chars = chars_of(text.as_str());
    let crlf = chars_of("\r\n");
    let lf = chars_of("\n");
    replace_chars(chars.as_slice(), crlf.as_slice(), lf.as_slice())
}

/// Joins both output streams of a run into one text.
pub fn join_streams(stdout: &[u8], stderr: &[u8]) -> (out: Vec<char>)
    ensures
        out@ == joined_streams(stdout@, stderr@),
{
    let mut out = crlf_to_lf(stdout);
    let lf = chars_of("\n");
    extend_chars(&mut out, lf.as_slice());
    let err = crlf_to_lf(stderr);
    extend_chars(&mut out, err.as_slice());
    out
}

/// Normalizes the output of a tool run; the result is UTF-8 text.
pub fn normalize_output_with(
    stdout: &[u8],
    stderr: &[u8],
    subs: &Vec<(Vec<char>, Vec<char>)>,
    markers: &Vec<Vec<char>>,
) -> (out: Vec<u8>)
    ensures
        out@ == vstd::utf8::encode_utf8(
            normalized_text(stdout@, stderr@, pair_views(subs@), views(markers@)),
        ),
{
    let joined = join_streams(stdout, stderr);
    let stripped = strip_ansi_chars(joined.as_slice());
    let replaced = replace_each(stripped.as_slice(), subs);
    let all_lines = lines_of(replaced.as_slice());
    let kept = normalize_lines(&all_lines, markers);
    let lf = chars_of("\n");
    let text = join_of(&kept, lf.as_slice());
    utf8_bytes(text.as_slice())
}

/// Every line right-trimmed.
pub open spec fn trimmed_lines(lines: Seq<Seq<char>>) -> Seq<Seq<char>>
    decreases lines.len(),
{
    if lines.len() == 0 {
        Seq::empty()
    } else {
        trimmed_lines(lines.drop_last()).push(trim_end(lines.last()))
    }
}

/// Text normalized line by line: `\r\n` as `\n`, trailing whitespace and
/// trailing empty lines removed, and one final newline when anything is
/// left.
pub open spec fn normalize_text(t: Seq<char>) -> Seq<char> {
    let body = join(drop_trailing_empty(trimmed_lines(lines(replace(t, "\r\n"@, "\n"@)))), "\n"@);
    if body.len() == 0 {
        body
    } else {
        body.push('\n')
    }
}

/// Bytes normalized line by line: decoded leniently, then normalized as
/// text.
pub open spec fn normalized_text_lines(bytes: Seq<u8>) -> Seq<char> {
    normalize_text(lossy_utf8(bytes))
}

/// Normalizes generated text so that two runs compare byte for byte.
pub fn normalize_text_bytes(bytes: &[u8]) -> (out: Vec<u8>)
    ensures
        out@ == vstd::utf8::encode_utf8(normalized_text_lines(bytes@)),
        valid_utf8(bytes@) ==> out@ == encode_utf8(normalize_text(decode_utf8(bytes@))),
{
    let text = crlf_to_lf(bytes);
    let all_lines = lines_of(text.as_slice());
    let mut trimmed: Vec<Vec<char>> = Vec::new();
    let mut i: usize = 0;
    while i < all_lines.len()
        invariant
            i <= all_lines@.len(),
            views(trimmed@) == trimmed_lines(views(all_lines@).take(i as int)),
        decreases all_lines@.len() - i,
    {
        let line = all_lines[i].as_slice();
        let n = trim_end_len(line);
        let mut t: Vec<char> = Vec::new();
        extend_range(&mut t, line, 0, n);
        let ghost before = views(trimmed@);
        trimmed.push(t);
        proof {
            let w = views(all_lines@).take(i + 1);
            assert(w.drop_last() =~= views(all_lines@).take(i as int));
            assert(w.last() == line@);
            assert(t@ =~= trim_end(line@));
            assert(views(trimmed@) =~= before.push(trim_end(line@)));
        }
        i = i + 1;
    }
    proof {
        assert(views(all_lines@).take(all_lines@.len() as int) =~= views(all_lines@));
    }
    pop_trailing_empty(&mut trimmed);
    let lf = chars_of("\n");
    let mut body = join_of(&trimmed, lf.as_slice());
    if body.len() > 0 {
        body.push('\n');
    }
    utf8_bytes(body.as_slice())
}

/// A path inside an adapter's scratch directory, named by its `marker`
/// (such as `/proofbound-kani-`), rewritten to a machine-independent
/// spelling: `$PROJECT` for the shadow project, `$PROOFBOUND_WORK` for the
/// rest of the scratch workspace.
pub open spec fn logicalize_spec(value: Seq<char>, marker: Seq<char>) -> Seq<char> {
    match find(value, marker) {
        None => value,
        Some(m) => {
            let suffix = value.skip(m);
            match find(suffix, "/workspace/project"@) {
                Some(p) => "$PROJECT"@ + suffix.skip(p + "/workspace/project"@.len()),
                None => match find(suffix, "/workspace"@) {
                    Some(w) => "$PROOFBOUND_WORK"@ + suffix.skip(w + "/workspace"@.len()),
                    None => "$PROOFBOUND_WORK"@,
                },
            }
        },
    }
}

/// `prefix` followed by `s[from..]`, where `from` is the end of an
/// occurrence of `p` found at `i`.
fn prefixed_rest(prefix: &str, s: &[char], i: usize, p: &[char]) -> (out: String)
    requires
        occurs_at(s@, p@, i as int),
    ensures
        out@ == prefix@ + s@.skip(i + p@.len()),
{
    let mut out = chars_of(prefix);
    proof {
        assert(s@.len() == s.len() && p@.len() == p.len());
    }
    let end: usize = i + p.len();
    extend_range(&mut out, s, end, s.len());
    proof {
        assert(s@.subrange(end as int, s@.len() as int) =~= s@.skip(end as int));
    }
    string_of(out.as_slice())
}

/// Rewrites a scratch-directory path to its logical spelling.
pub fn logicalize_with(value: &str, marker: &str) -> (out: String)
    ensures
        out@ == logicalize_spec(value@, marker@),
{
    let v = chars_of(value);
    let m = chars_of(marker);
    match find_in(v.as_slice(), m.as_slice(), 0) {
        None => value.to_owned(),
        Some(at) => {
            proof {
                lemma_find_from_props(v@, m@, 0);
            }
            let mut suffix: Vec<char> = Vec::new();
            extend_range(&mut suffix, v.as_slice(), at, v.len());
            proof {
                assert(suffix@ =~= value@.skip(at as int));
            }
            let project = chars_of("/workspace/project");
            match find_in(suffix.as_slice(), project.as_slice(), 0) {
                Some(p) => {
                    proof {
                        lemma_find_from_props(suffix@, project@, 0);
                    }
                    prefixed_rest("$PROJECT", suffix.as_slice(), p, project.as_slice())
                },
                None => {
                    let workspace = chars_of("/workspace");
                    match find_in(suffix.as_slice(), workspace.as_slice(), 0) {
                        Some(w) => {
                            proof {
                                lemma_find_from_props(suffix@, workspace@, 0);
                            }
                            prefixed_rest(
                                "$PROOFBOUND_WORK",
                                suffix.as_slice(),
                                w,
                                workspace.as_slice(),
                            )
                        },
                        None => "$PROOFBOUND_WORK".to_owned(),
                    }
                },
            }
        },
    }
}

/// At most the first `limit` characters.
pub open spec fn truncated(s: Seq<char>, limit: nat) -> Seq<char> {
    if s.len() <= limit {
        s
    } else {
        s.take(limit as int)
    }
}

/// Keeps at most the first `limit` characters of `message`.
pub fn truncate_chars(message: &str, limit: usize) -> (out: String)
    ensures
        out@ == truncated(message@, limit as nat),
{
    let chars = chars_of(message);
    if chars.len() <= limit {
        return message.to_owned();
    }
    let mut kept: Vec<char> = Vec::new();
    extend_range(&mut kept, chars.as_slice(), 0, limit);
    proof {
        assert(kept@ =~= message@.take(limit as int));
    }
    string_of(kept.as_slice())
}


/// No `\r` is directly followed by `\n`.
pub open spec fn crlf_free(s: Seq<char>) -> bool {
    forall|i: int| 0 <= i < s.len() - 1 ==> !(#[trigger] s[i] == '\r' && s[i + 1] == '\n')
}

/// No character of `s` is a newline.
pub open spec fn newline_free(s: Seq<char>) -> bool {
    forall|i: int| 0 <= i < s.len() ==> #[trigger] s[i] != '\n'
}

/// A normalized line: no newline in it and no whitespace at its end.
pub open spec fn clean_line(s: Seq<char>) -> bool {
    newline_free(s) && trim_end(s) == s
}

proof fn lemma_replace_crlf_free(s: Seq<char>)
    requires
        crlf_free(s),
    ensures
        replace(s, "\r\n"@, "\n"@) == s,
{
    reveal_strlit("\r\n");
    lemma_find_from_props(s, "\r\n"@, 0);
    if let Some(i) = find(s, "\r\n"@) {
        assert(s.subrange(i, i + 2) == "\r\n"@);
        assert(s.subrange(i, i + 2)[0] == s[i]);
        assert(s.subrange(i, i + 2)[1] == s[i + 1]);
    }
}

proof fn lemma_lines_concat(p: Seq<char>, q: Seq<char>, cur: Seq<char>)
    requires
        p.len() > 0,
        p.last() == '\n',
    ensures
        lines_acc(p + q, cur) == lines_acc(p, cur) + lines_acc(q, Seq::empty()),
    decreases p.len(),
{
    assert((p + q).drop_first() =~= p.drop_first() + q);
    assert((p + q)[0] == p[0]);
    if p[0] == '\n' {
        if p.len() == 1 {
            assert(p.drop_first() + q =~= q);
            assert(lines_acc(p.drop_first(), Seq::empty()) =~= Seq::<Seq<char>>::empty());
        } else {
            lemma_lines_concat(p.drop_first(), q, Seq::empty());
        }
    } else {
        lemma_lines_concat(p.drop_first(), q, cur.push(p[0]));
    }
}

proof fn lemma_lines_line(e: Seq<char>, cur: Seq<char>)
    requires
        newline_free(e),
    ensures
        lines_acc(e.push('\n'), cur) == seq![strip_cr(cur + e)],
    decreases e.len(),
{
    if e.len() == 0 {
        assert(cur + e =~= cur);
        assert(e.push('\n').drop_first() =~= Seq::<char>::empty());
        assert(e.push('\n')[0] == '\n');
        assert(e.push('\n').len() == 1);
        assert(lines_acc(Seq::<char>::empty(), Seq::<char>::empty()) =~= Seq::<Seq<char>>::empty());
        assert(seq![strip_cr(cur)] + Seq::<Seq<char>>::empty() =~= seq![strip_cr(cur)]);
    } else {
        assert(e.push('\n').drop_first() =~= e.drop_first().push('\n'));
        assert(e.push('\n')[0] == e[0]);
        assert(e[0] != '\n');
        assert(newline_free(e.drop_first())) by {
            assert forall|i: int| 0 <= i < e.drop_first().len() implies #[trigger] e.drop_first()[i] != '\n' by {
                assert(e.drop_first()[i] == e[i + 1]);
            }
        }
        lemma_lines_line(e.drop_first(), cur.push(e[0]));
        assert(cur.push(e[0]) + e.drop_first() =~= cur + e);
    }
}

proof fn lemma_ws_cr()
    ensures
        is_ws('\r'),
{
}

proof fn lemma_lines_of_join(l: Seq<Seq<char>>)
    requires
        l.len() > 0,
        forall|i: int| 0 <= i < l.len() ==> clean_line(#[trigger] l[i]),
    ensures
        lines(join(l, "\n"@).push('\n')) == l,
        crlf_free(join(l, "\n"@).push('\n')),
    decreases l.len(),
{
    reveal_strlit("\n");
    let x = l.last();
    assert(clean_line(x));
    assert(x.len() == 0 || !is_ws(x.last())) by {
        if x.len() > 0 && is_ws(x.last()) {
            lemma_trim_end_prefix(x.drop_last());
            assert(trim_end(x).len() < x.len());
        }
    }
    assert(x.len() == 0 || x.last() != '\r');
    lemma_lines_line(x, Seq::empty());
    assert(Seq::<char>::empty() + x =~= x);
    assert(crlf_free(x.push('\n'))) by {
        assert forall|i: int| 0 <= i < x.push('\n').len() - 1 implies !(#[trigger] x.push('\n')[i] == '\r'
            && x.push('\n')[i + 1] == '\n') by {
            if i + 1 < x.len() {
                assert(x.push('\n')[i + 1] == x[i + 1]);
            } else {
                assert(x.push('\n')[i] == x.last());
            }
        }
    }
    if l.len() == 1 {
        assert(lines_acc(x.push('\n'), Seq::empty()) == seq![x]);
        assert(l =~= seq![x]);
    } else {
        let m = l.drop_last();
        assert forall|i: int| 0 <= i < m.len() implies clean_line(#[trigger] m[i]) by {
            assert(m[i] == l[i]);
        }
        lemma_lines_of_join(m);
        let a = join(m, "\n"@).push('\n');
        let b = x.push('\n');
        assert(join(l, "\n"@).push('\n') =~= a + b);
        lemma_lines_concat(a, b, Seq::empty());
        assert(m.push(x) =~= l);
        assert(crlf_free(a + b)) by {
            assert forall|i: int| 0 <= i < (a + b).len() - 1 implies !(#[trigger] (a + b)[i] == '\r' && (a
                + b)[i + 1] == '\n') by {
                if i + 1 < a.len() {
                    assert((a + b)[i] == a[i] && (a + b)[i + 1] == a[i + 1]);
                } else if i + 1 == a.len() {
                    assert((a + b)[i] == a.last());
                } else {
                    assert((a + b)[i] == b[i - a.len()] && (a + b)[i + 1] == b[i + 1 - a.len()]);
                }
            }
        }
    }
}

proof fn lemma_trim_end_clean(s: Seq<char>)
    ensures
        trim_end(trim_end(s)) == trim_end(s),
        newline_free(s) ==> newline_free(trim_end(s)),
    decreases s.len(),
{
    lemma_trim_end_prefix(s);
    if s.len() > 0 && is_ws(s.last()) {
        lemma_trim_end_clean(s.drop_last());
        if newline_free(s) {
            assert(newline_free(s.drop_last())) by {
                assert forall|i: int| 0 <= i < s.drop_last().len() implies #[trigger] s.drop_last()[i] != '\n' by {
                    assert(s.drop_last()[i] == s[i]);
                }
            }
        }
    }
}

proof fn lemma_lines_newline_free(s: Seq<char>, cur: Seq<char>, k: int)
    requires
        newline_free(cur),
        0 <= k < lines_acc(s, cur).len(),
    ensures
        newline_free(lines_acc(s, cur)[k]),
    decreases s.len(),
{
    if s.len() == 0 {
    } else if s[0] == '\n' {
        assert(newline_free(strip_cr(cur))) by {
            assert forall|i: int| 0 <= i < strip_cr(cur).len() implies #[trigger] strip_cr(cur)[i] != '\n' by {
                assert(strip_cr(cur)[i] == cur[i]);
            }
        }
        if k > 0 {
            lemma_lines_newline_free(s.drop_first(), Seq::empty(), k - 1);
        }
    } else {
        assert(newline_free(cur.push(s[0]))) by {
            assert forall|i: int| 0 <= i < cur.push(s[0]).len() implies #[trigger] cur.push(s[0])[i] != '\n' by {
                if i < cur.len() {
                    assert(cur.push(s[0])[i] == cur[i]);
                }
            }
        }
        lemma_lines_newline_free(s.drop_first(), cur.push(s[0]), k);
    }
}

proof fn lemma_trimmed_clean(ls: Seq<Seq<char>>)
    requires
        forall|i: int| 0 <= i < ls.len() ==> newline_free(#[trigger] ls[i]),
    ensures
        trimmed_lines(ls).len() == ls.len(),
        forall|i: int| 0 <= i < ls.len() ==> clean_line(#[trigger] trimmed_lines(ls)[i]),
    decreases ls.len(),
{
    if ls.len() > 0 {
        let m = ls.drop_last();
        assert forall|i: int| 0 <= i < m.len() implies newline_free(#[trigger] m[i]) by {
            assert(m[i] == ls[i]);
        }
        lemma_trimmed_clean(m);
        lemma_trim_end_clean(ls.last());
        assert forall|i: int| 0 <= i < ls.len() implies clean_line(#[trigger] trimmed_lines(ls)[i]) by {
            if i < m.len() {
                assert(trimmed_lines(ls)[i] == trimmed_lines(m)[i]);
            }
        }
    }
}

proof fn lemma_trimmed_fixed(ls: Seq<Seq<char>>)
    requires
        forall|i: int| 0 <= i < ls.len() ==> clean_line(#[trigger] ls[i]),
    ensures
        trimmed_lines(ls) == ls,
    decreases ls.len(),
{
    if ls.len() > 0 {
        let m = ls.drop_last();
        assert forall|i: int| 0 <= i < m.len() implies clean_line(#[trigger] m[i]) by {
            assert(m[i] == ls[i]);
        }
        lemma_trimmed_fixed(m);
        assert(clean_line(ls.last()));
        assert(m.push(ls.last()) =~= ls);
    }
}

proof fn lemma_drop_trailing_empty(ls: Seq<Seq<char>>)
    ensures
        drop_trailing_empty(ls).len() <= ls.len(),
        forall|i: int| 0 <= i < drop_trailing_empty(ls).len() ==> #[trigger] drop_trailing_empty(ls)[i] == ls[i],
        drop_trailing_empty(ls).len() == 0 || drop_trailing_empty(ls).last().len() > 0,
        ls.len() == 0 || ls.last().len() > 0 ==> drop_trailing_empty(ls) == ls,
    decreases ls.len(),
{
    if ls.len() > 0 && ls.last().len() == 0 {
        lemma_drop_trailing_empty(ls.drop_last());
        assert forall|i: int| 0 <= i < drop_trailing_empty(ls).len() implies #[trigger] drop_trailing_empty(ls)[i]
            == ls[i] by {
            assert(ls.drop_last()[i] == ls[i]);
        }
    }
}

proof fn lemma_join_nonempty(l: Seq<Seq<char>>)
    requires
        l.len() > 0,
        l.last().len() > 0,
    ensures
        join(l, "\n"@).len() > 0,
{
    if l.len() > 1 {
        assert(join(l, "\n"@) == join(l.drop_last(), "\n"@) + "\n"@ + l.last());
    }
}

/// The lines normalization keeps: each clean, the last one nonempty.
proof fn lemma_kept_lines(t: Seq<char>)
    ensures
        ({
            let l = drop_trailing_empty(trimmed_lines(lines(replace(t, "\r\n"@, "\n"@))));
            &&& forall|i: int| 0 <= i < l.len() ==> clean_line(#[trigger] l[i])
            &&& l.len() == 0 || l.last().len() > 0
        }),
{
    let x = replace(t, "\r\n"@, "\n"@);
    let ls = lines(x);
    assert forall|i: int| 0 <= i < ls.len() implies newline_free(#[trigger] ls[i]) by {
        lemma_lines_newline_free(x, Seq::empty(), i);
    }
    lemma_trimmed_clean(ls);
    let tl = trimmed_lines(ls);
    lemma_drop_trailing_empty(tl);
    let l = drop_trailing_empty(tl);
    assert forall|i: int| 0 <= i < l.len() implies clean_line(#[trigger] l[i]) by {
        assert(l[i] == tl[i]);
    }
}

/// Normalizing generated text twice gives what normalizing it once gave,
/// and what it gives is either empty or ends in exactly one newline after a
/// nonempty last line, holds no `\r\n`, and no line of it ends in
/// whitespace.
pub proof fn lemma_normalized_text_is_stable(t: Seq<char>)
    ensures
        normalize_text(normalize_text(t)) == normalize_text(t),
        normalize_text(t).len() == 0 || (normalize_text(t).last() == '\n' && lines(normalize_text(t)).len() > 0
            && lines(normalize_text(t)).last().len() > 0),
        crlf_free(normalize_text(t)),
        forall|i: int| 0 <= i < lines(normalize_text(t)).len() ==> clean_line(#[trigger] lines(normalize_text(t))[i]),
{
    reveal_strlit("\n");
    lemma_kept_lines(t);
    let l = drop_trailing_empty(trimmed_lines(lines(replace(t, "\r\n"@, "\n"@))));
    let n = normalize_text(t);
    if l.len() == 0 {
        assert(join(l, "\n"@) == Seq::<char>::empty());
        assert(n == Seq::<char>::empty());
        lemma_replace_crlf_free(n);
        assert(lines(n) =~= Seq::<Seq<char>>::empty());
        assert(trimmed_lines(Seq::<Seq<char>>::empty()) == Seq::<Seq<char>>::empty());
    } else {
        lemma_join_nonempty(l);
        assert(n == join(l, "\n"@).push('\n'));
        lemma_lines_of_join(l);
        lemma_replace_crlf_free(n);
        lemma_trimmed_fixed(l);
        lemma_drop_trailing_empty(l);
    }
}

/// Normalized bytes are UTF-8 whose text normalization leaves unchanged:
/// by the second clause of `normalize_text_bytes`, which reads UTF-8 input
/// as decoded, normalizing its output again gives the same bytes.
pub proof fn lemma_normalized_bytes_decode(bytes: Seq<u8>)
    ensures
        valid_utf8(encode_utf8(normalized_text_lines(bytes))),
        decode_utf8(encode_utf8(normalized_text_lines(bytes))) == normalized_text_lines(bytes),
        normalize_text(decode_utf8(encode_utf8(normalized_text_lines(bytes)))) == normalized_text_lines(bytes),
{
    vstd::utf8::encode_utf8_valid_utf8(normalized_text_lines(bytes));
    vstd::utf8::encode_utf8_decode_utf8(normalized_text_lines(bytes));
    lemma_normalized_text_is_stable(lossy_utf8(bytes));
}

} // verus!
