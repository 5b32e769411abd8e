//! The manifest rewrite performed by the release pipeline: scan the file's
//! lines in order, and once the `[package]` section has opened, replace the
//! first line that starts with the `version` key by a canonical
//! `version = "X"` line, where `X` is the new version with every `v`
//! character removed. Every other line passes through verbatim.

use vstd::prelude::*;

verus! {

/// The lines of `s`: the segments between `\n` characters. A text of `k`
/// newlines has `k + 1` lines; the terminators themselves belong to none
/// of them, so joining the lines back with `\n` restores `s` exactly.
pub open spec fn lines(s: Seq<char>) -> Seq<Seq<char>>
    decreases s.len(),
{
    if s.len() == 0 {
        seq![Seq::<char>::empty()]
    } else if s[0] == '\n' {
        seq![Seq::<char>::empty()] + lines(s.skip(1))
    } else {
        let rest = lines(s.skip(1));
        seq![seq![s[0]] + rest[0]] + rest.skip(1)
    }
}

/// The inverse of `lines`: the segments interposed with `\n`.
pub open spec fn join(segs: Seq<Seq<char>>) -> Seq<char>
    decreases segs.len(),
{
    if segs.len() == 0 {
        Seq::<char>::empty()
    } else if segs.len() == 1 {
        segs[0]
    } else {
        segs[0] + seq!['\n'] + join(segs.skip(1))
    }
}

/// A line that opens the package section.
pub open spec fn opens_package(line: Seq<char>) -> bool {
    "[package]"@.is_prefix_of(line)
}

/// A line that starts with the `version` key.
pub open spec fn names_version(line: Seq<char>) -> bool {
    "version"@.is_prefix_of(line)
}

/// `s` with every occurrence of the character `v` removed — not only a
/// leading prefix, which is the rule the release pipeline applies to the
/// version token it is handed.
pub open spec fn strip_v(s: Seq<char>) -> Seq<char>
    decreases s.len(),
{
    if s.len() == 0 {
        Seq::<char>::empty()
    } else if s.last() == 'v' {
        strip_v(s.drop_last())
    } else {
        strip_v(s.drop_last()) + seq![s.last()]
    }
}

/// The canonical line written in place of the version line.
pub open spec fn replacement_line(version: Seq<char>) -> Seq<char> {
    "version = \""@ + strip_v(version) + "\""@
}

/// One scan over the lines. `in_package` records that a line opening the
/// package section has been seen (it is never cleared again), `replaced`
/// that the version line has already been rewritten.
pub open spec fn rewrite_lines_from(
    segs: Seq<Seq<char>>,
    version: Seq<char>,
    in_package: bool,
    replaced: bool,
) -> Seq<Seq<char>>
    decreases segs.len(),
{
    if segs.len() == 0 {
        Seq::<Seq<char>>::empty()
    } else {
        let line = segs[0];
        if !in_package {
            seq![line] + rewrite_lines_from(segs.skip(1), version, opens_package(line), replaced)
        } else if !replaced && names_version(line) {
            seq![replacement_line(version)] + rewrite_lines_from(segs.skip(1), version, true, true)
        } else {
            seq![line] + rewrite_lines_from(segs.skip(1), version, true, replaced)
        }
    }
}

/// The rewritten lines of a manifest.
pub open spec fn rewrite_lines(content: Seq<char>, version: Seq<char>) -> Seq<Seq<char>> {
    rewrite_lines_from(lines(content), version, false, false)
}

/// The rewritten manifest text.
pub open spec fn rewrite(content: Seq<char>, version: Seq<char>) -> Seq<char> {
    join(rewrite_lines(content, version))
}

/// A text always has at least one line.
proof fn lemma_lines_nonempty(s: Seq<char>)
    ensures
        lines(s).len() >= 1,
    decreases s.len(),
{
    if s.len() == 0 {
    } else if s[0] == '\n' {
    } else {
        lemma_lines_nonempty(s.skip(1));
    }
}

/// Splitting off the first line: if the first `k` characters of `s` hold no
/// newline and `k` is either the position of the first newline or the end
/// of the text, then the first line of `s` is `s.take(k)` and the remaining
/// lines are those of the text after the newline.
proof fn lemma_lines_split(s: Seq<char>, k: int)
    requires
        0 <= k <= s.len(),
        forall|j: int| 0 <= j < k ==> s[j] != '\n',
        k < s.len() ==> s[k] == '\n',
    ensures
        k == s.len() ==> lines(s) == seq![s],
        k < s.len() ==> lines(s) == seq![s.take(k)] + lines(s.skip(k + 1)),
    decreases s.len(),
{
    if k == 0 {
        if s.len() == 0 {
            assert(s =~= Seq::<char>::empty());
            assert(lines(s) =~= seq![s]);
        } else {
            assert(s.take(0) =~= Seq::<char>::empty());
            assert(lines(s) =~= seq![s.take(0)] + lines(s.skip(1)));
        }
    } else {
        let t = s.skip(1);
        assert(forall|j: int| 0 <= j < k - 1 ==> t[j] == s[j + 1] && s[j + 1] != '\n');
        assert(k - 1 < t.len() ==> t[k - 1] == s[k]);
        lemma_lines_split(t, k - 1);
        let rest = lines(t);
        lemma_lines_nonempty(t);
        if k == s.len() {
            assert(rest == seq![t]);
            assert(rest[0] == t);
            assert(rest.skip(1) =~= Seq::<Seq<char>>::empty());
            assert(seq![s[0]] + t =~= s);
            assert(lines(s) =~= seq![s]);
        } else {
            assert(rest == seq![t.take(k - 1)] + lines(t.skip(k)));
            assert(rest[0] == t.take(k - 1));
            assert(rest.skip(1) =~= lines(t.skip(k)));
            assert(seq![s[0]] + t.take(k - 1) =~= s.take(k));
            assert(t.skip(k) =~= s.skip(k + 1));
            assert(lines(s) =~= seq![s.take(k)] + lines(s.skip(k + 1)));
        }
    }
}

/// The scan keeps the number of lines.
proof fn lemma_rewrite_lines_from_len(
    segs: Seq<Seq<char>>,
    version: Seq<char>,
    in_package: bool,
    replaced: bool,
)
    ensures
        rewrite_lines_from(segs, version, in_package, replaced).len() == segs.len(),
    decreases segs.len(),
{
    if segs.len() == 0 {
    } else if !in_package {
        lemma_rewrite_lines_from_len(segs.skip(1), version, opens_package(segs[0]), replaced);
    } else if !replaced && names_version(segs[0]) {
        lemma_rewrite_lines_from_len(segs.skip(1), version, true, true);
    } else {
        lemma_rewrite_lines_from_len(segs.skip(1), version, true, replaced);
    }
}

/// `lines` and `join` are inverses: joining the lines of a text with `\n`
/// restores the text exactly, newline layout included.
pub proof fn lemma_join_lines(s: Seq<char>)
    ensures
        join(lines(s)) == s,
    decreases s.len(),
{
    if s.len() == 0 {
        assert(join(lines(s)) =~= s);
    } else if s[0] == '\n' {
        lemma_join_lines(s.skip(1));
        lemma_lines_nonempty(s.skip(1));
        assert(lines(s)[0] =~= Seq::<char>::empty());
        assert(lines(s).skip(1) =~= lines(s.skip(1)));
        assert(join(lines(s)) =~= Seq::<char>::empty() + seq!['\n'] + join(lines(s.skip(1))));
        assert(join(lines(s)) =~= s);
    } else {
        lemma_join_lines(s.skip(1));
        lemma_lines_nonempty(s.skip(1));
        let rest = lines(s.skip(1));
        assert(lines(s)[0] == seq![s[0]] + rest[0]);
        assert(lines(s).skip(1) =~= rest.skip(1));
        if rest.len() == 1 {
            assert(join(rest) == rest[0]);
            assert(lines(s) =~= seq![seq![s[0]] + rest[0]]);
            assert(join(lines(s)) == seq![s[0]] + rest[0]);
            assert(join(lines(s)) =~= s);
        } else {
            assert(join(rest) == rest[0] + seq!['\n'] + join(rest.skip(1)));
            assert(lines(s).len() == rest.len());
            assert(join(lines(s)) == lines(s)[0] + seq!['\n'] + join(lines(s).skip(1)));
            assert(join(lines(s)) =~= seq![s[0]] + join(rest));
            assert(join(lines(s)) =~= s);
        }
    }
}

/// A text without a line opening the `[package]` section passes through
/// the rewrite unchanged, whatever the version.
pub proof fn lemma_rewrite_without_package(content: Seq<char>, version: Seq<char>)
    requires
        forall|i: int| 0 <= i < lines(content).len() ==> !opens_package(lines(content)[i]),
    ensures
        rewrite(content, version) == content,
{
    lemma_rewrite_no_opener(lines(content), version, false);
    lemma_join_lines(content);
}

/// The scan copies everything while no line opens the package section and
/// the section has not been entered.
proof fn lemma_rewrite_no_opener(segs: Seq<Seq<char>>, version: Seq<char>, replaced: bool)
    requires
        forall|i: int| 0 <= i < segs.len() ==> !opens_package(segs[i]),
    ensures
        rewrite_lines_from(segs, version, false, replaced) == segs,
    decreases segs.len(),
{
    if segs.len() == 0 {
        assert(rewrite_lines_from(segs, version, false, replaced) =~= segs);
    } else {
        assert(forall|i: int| 0 <= i < segs.skip(1).len() ==> segs.skip(1)[i] == segs[i + 1]);
        lemma_rewrite_no_opener(segs.skip(1), version, replaced);
        assert(rewrite_lines_from(segs, version, false, replaced) =~= seq![segs[0]] + segs.skip(
            1,
        ));
        assert(seq![segs[0]] + segs.skip(1) =~= segs);
    }
}

/// Once the version line has been replaced, the rest of the scan copies
/// every line unchanged.
proof fn lemma_rewrite_after_replacement(segs: Seq<Seq<char>>, version: Seq<char>, in_package: bool)
    ensures
        rewrite_lines_from(segs, version, in_package, true) == segs,
    decreases segs.len(),
{
    if segs.len() == 0 {
        assert(rewrite_lines_from(segs, version, in_package, true) =~= segs);
    } else {
        if !in_package {
            lemma_rewrite_after_replacement(segs.skip(1), version, opens_package(segs[0]));
        } else {
            lemma_rewrite_after_replacement(segs.skip(1), version, true);
        }
        assert(rewrite_lines_from(segs, version, in_package, true) =~= seq![segs[0]] + segs.skip(
            1,
        ));
        assert(seq![segs[0]] + segs.skip(1) =~= segs);
    }
}

/// Inside the package section with the replacement still owed, the scan
/// rewrites exactly the first line that starts with `version` — here at
/// index `q` — and keeps every other line verbatim.
proof fn lemma_rewrite_in_package(segs: Seq<Seq<char>>, version: Seq<char>, q: int)
    requires
        0 <= q < segs.len(),
        names_version(segs[q]),
        forall|j: int| 0 <= j < q ==> !names_version(segs[j]),
    ensures
        rewrite_lines_from(segs, version, true, false).len() == segs.len(),
        rewrite_lines_from(segs, version, true, false)[q] == replacement_line(version),
        forall|i: int|
            0 <= i < segs.len() && i != q ==> rewrite_lines_from(segs, version, true, false)[i]
                == segs[i],
    decreases segs.len(),
{
    let out = rewrite_lines_from(segs, version, true, false);
    if q == 0 {
        lemma_rewrite_after_replacement(segs.skip(1), version, true);
        assert(out =~= seq![replacement_line(version)] + segs.skip(1));
        assert(forall|i: int| 0 < i < segs.len() ==> out[i] == segs[i]);
    } else {
        lemma_rewrite_in_package(segs.skip(1), version, q - 1);
        let tail = rewrite_lines_from(segs.skip(1), version, true, false);
        assert(out =~= seq![segs[0]] + tail);
        assert(out[q] == tail[q - 1]);
        assert(forall|i: int| 0 < i < segs.len() && i != q ==> out[i] == tail[i - 1] && tail[i - 1]
            == segs.skip(1)[i - 1]);
    }
}

/// The scan before the package section has opened: with the single opener
/// at index `p` and the first `version` line after it at index `q`, the
/// rewrite touches exactly line `q`.
proof fn lemma_rewrite_before_package(segs: Seq<Seq<char>>, version: Seq<char>, p: int, q: int)
    requires
        0 <= p < q < segs.len(),
        opens_package(segs[p]),
        forall|i: int| 0 <= i < p ==> !opens_package(segs[i]),
        names_version(segs[q]),
        forall|j: int| p < j < q ==> !names_version(segs[j]),
    ensures
        rewrite_lines_from(segs, version, false, false).len() == segs.len(),
        rewrite_lines_from(segs, version, false, false)[q] == replacement_line(version),
        forall|i: int|
            0 <= i < segs.len() && i != q ==> rewrite_lines_from(segs, version, false, false)[i]
                == segs[i],
    decreases segs.len(),
{
    let out = rewrite_lines_from(segs, version, false, false);
    if p == 0 {
        lemma_rewrite_in_package(segs.skip(1), version, q - 1);
        let tail = rewrite_lines_from(segs.skip(1), version, true, false);
        assert(out =~= seq![segs[0]] + tail);
        assert(out[q] == tail[q - 1]);
        assert(forall|i: int| 0 < i < segs.len() && i != q ==> out[i] == tail[i - 1] && tail[i - 1]
            == segs.skip(1)[i - 1]);
    } else {
        lemma_rewrite_before_package(segs.skip(1), version, p - 1, q - 1);
        let tail = rewrite_lines_from(segs.skip(1), version, false, false);
        assert(out =~= seq![segs[0]] + tail);
        assert(out[q] == tail[q - 1]);
        assert(forall|i: int| 0 < i < segs.len() && i != q ==> out[i] == tail[i - 1] && tail[i - 1]
            == segs.skip(1)[i - 1]);
    }
}

/// For a manifest holding exactly one line that opens the `[package]`
/// section — at line index `p` — and at least one later line starting with
/// the `version` key, the first of which sits at index `q`, the rewrite
/// keeps the number of lines, replaces line `q` by the canonical
/// `version = "..."` line, and preserves every other line verbatim.
pub proof fn lemma_rewrite_package_manifest(content: Seq<char>, version: Seq<char>, p: int, q: int)
    requires
        0 <= p < q < lines(content).len(),
        opens_package(lines(content)[p]),
        forall|i: int| 0 <= i < lines(content).len() && i != p ==> !opens_package(lines(content)[i]),
        names_version(lines(content)[q]),
        forall|j: int| p < j < q ==> !names_version(lines(content)[j]),
    ensures
        rewrite_lines(content, version).len() == lines(content).len(),
        rewrite_lines(content, version)[q] == replacement_line(version),
        forall|i: int|
            0 <= i < lines(content).len() && i != q ==> rewrite_lines(content, version)[i]
                == lines(content)[i],
{
    lemma_rewrite_before_package(lines(content), version, p, q);
}

/// Whether `prefix@` is a prefix of `s@`, by character comparison.
fn str_starts_with(s: &str, prefix: &str) -> (r: bool)
    ensures
        r == prefix@.is_prefix_of(s@),
{
    let n = s.unicode_len();
    let m = prefix.unicode_len();
    if m > n {
        return false;
    }
    let mut i: usize = 0;
    while i < m
        invariant
            n == s@.len(),
            m == prefix@.len(),
            m <= n,
            i <= m,
            forall|j: int| 0 <= j < i ==> s@[j] == prefix@[j],
        decreases m - i,
    {
        if s.get_char(i) != prefix.get_char(i) {
            assert(s@.subrange(0, m as int)[i as int] == s@[i as int]);
            return false;
        }
        i += 1;
    }
    assert(prefix@ =~= s@.subrange(0, m as int));
    true
}

/// The version token with every `v` character removed.
pub fn strip_version_chars(version: &str) -> (r: String)
    ensures
        r@ == strip_v(version@),
{
    let n = version.unicode_len();
    let mut out = String::new();
    let mut i: usize = 0;
    while i < n
        invariant
            n == version@.len(),
            i <= n,
            out@ == strip_v(version@.take(i as int)),
        decreases n - i,
    {
        proof {
            assert(version@.take(i + 1).drop_last() =~= version@.take(i as int));
            assert(version@.take(i + 1).last() == version@[i as int]);
        }
        let c = version.get_char(i);
        if c != 'v' {
            let piece = version.substring_char(i, i + 1);
            proof {
                assert(piece@ =~= seq![version@[i as int]]);
            }
            out.append(piece);
        }
        i += 1;
    }
    proof {
        assert(version@.take(n as int) =~= version@);
    }
    out
}

/// Rewrites a manifest's version field: scans the lines of `content` in
/// order, and once a line opening the `[package]` section has been seen,
/// replaces the first line starting with `version` by
/// `version = "<new_version with every 'v' removed>"`. All other lines,
/// and the text's newline layout, are kept byte for byte.
#[verifier::rlimit(60)]
pub fn update_cargo_toml_version(content: &str, new_version: &str) -> (r: String)
    ensures
        r@ == rewrite(content@, new_version@),
{
    let n = content.unicode_len();
    let mut out = String::new();
    let mut pos: usize = 0;
    let mut in_package = false;
    let mut replaced = false;
    proof {
        assert(content@.skip(0) =~= content@);
        assert(out@ + join(rewrite_lines(content@, new_version@)) =~= join(
            rewrite_lines(content@, new_version@),
        ));
    }
    loop
        invariant_except_break
            n == content@.len(),
            pos <= n,
            join(rewrite_lines(content@, new_version@)) == out@ + join(
                rewrite_lines_from(lines(content@.skip(pos as int)), new_version@, in_package, replaced),
            ),
        ensures
            out@ == join(rewrite_lines(content@, new_version@)),
        decreases n - pos,
    {
        let ghost rest = content@.skip(pos as int);
        let mut end: usize = pos;
        while end < n && content.get_char(end) != '\n'
            invariant
                n == content@.len(),
                pos <= end <= n,
                forall|j: int| pos <= j < end ==> content@[j] != '\n',
            decreases n - end,
        {
            end += 1;
        }
        let ghost k = end - pos as int;
        proof {
            assert(forall|j: int| 0 <= j < k ==> rest[j] == content@[pos + j] && content@[pos + j] != '\n');
            assert(k < rest.len() ==> rest[k] == content@[end as int]);
            lemma_lines_split(rest, k);
            lemma_lines_nonempty(rest);
        }
        let seg = content.substring_char(pos, end);
        proof {
            assert(seg@ =~= rest.take(k));
            if k == rest.len() {
                assert(rest.take(k) =~= rest);
            }
        }
        let ghost segs_rest = lines(rest);
        let ghost tail_segs = (if k == rest.len() {
            Seq::<Seq<char>>::empty()
        } else {
            lines(rest.skip(k + 1))
        });
        proof {
            assert(segs_rest =~= seq![seg@] + tail_segs);
            assert(segs_rest[0] == seg@);
            assert(segs_rest.skip(1) =~= tail_segs);
            if k < rest.len() {
                lemma_lines_nonempty(rest.skip(k + 1));
            }
        }
        let ghost old_out = out@;
        let ghost old_in_package = in_package;
        let ghost old_replaced = replaced;
        if !in_package {
            out.append(seg);
            if str_starts_with(seg, "[package]") {
                in_package = true;
            }
        } else if !replaced && str_starts_with(seg, "version") {
            out.append("version = \"");
            let stripped = strip_version_chars(new_version);
            out.append(stripped.as_str());
            out.append("\"");
            replaced = true;
        } else {
            out.append(seg);
        }
        proof {
            let line_out = rewrite_lines_from(segs_rest, new_version@, old_in_package, old_replaced);
            let tail_out = rewrite_lines_from(tail_segs, new_version@, in_package, replaced);
            assert(line_out == seq![out@.skip(old_out.len() as int)] + tail_out) by {
                assert(out@.skip(old_out.len() as int) =~= (if old_in_package && !old_replaced
                    && names_version(seg@) {
                    replacement_line(new_version@)
                } else {
                    seg@
                }));
            }
            assert(line_out[0] == out@.skip(old_out.len() as int));
            assert(line_out.skip(1) =~= tail_out);
            lemma_rewrite_lines_from_len(tail_segs, new_version@, in_package, replaced);
        }
        if end == n {
            proof {
                assert(tail_segs =~= Seq::<Seq<char>>::empty());
                let line_out = rewrite_lines_from(segs_rest, new_version@, old_in_package, old_replaced);
                assert(line_out =~= seq![out@.skip(old_out.len() as int)]);
                assert(join(line_out) == out@.skip(old_out.len() as int));
                assert(old_out + out@.skip(old_out.len() as int) =~= out@);
            }
            break;
        }
        out.append("\n");
        pos = end + 1;
        proof {
            let line_out = rewrite_lines_from(segs_rest, new_version@, old_in_package, old_replaced);
            let tail_out = rewrite_lines_from(tail_segs, new_version@, in_package, replaced);
            reveal_strlit("\n");
            assert("\n"@ =~= seq!['\n']);
            assert(tail_segs.len() >= 1);
            assert(tail_out.len() >= 1);
            assert(join(line_out) == line_out[0] + seq!['\n'] + join(tail_out));
            assert(rest.skip(k + 1) =~= content@.skip(pos as int));
            assert(old_out + (line_out[0] + seq!['\n']) =~= out@);
            assert(old_out + join(line_out) =~= out@ + join(tail_out));
        }
    }
    out
}

} // verus!
