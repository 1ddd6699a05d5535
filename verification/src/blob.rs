//! Blobs: units of uploadable content. A source file becomes one blob, or,
//! when it has more lines than the configured maximum, a run of chunk blobs
//! whose contents concatenate back to the original text.

use vstd::prelude::*;
use vstd::string::StringExecFns;
use vstd::arithmetic::mul::lemma_mul_inequality;
use crate::arith::{ceil_div, lemma_ceil_div_bounds, lemma_ceil_div_computed};
use crate::text::{dec_digits, usize_to_string};

verus! {

/// One unit of content to upload: a project-relative path and the text.
#[derive(Debug)]
pub struct BlobUpload {
    pub path: String,
    pub content: String,
}

/// Mathematical image of a blob.
pub struct BlobView {
    pub path: Seq<char>,
    pub content: Seq<char>,
}

impl View for BlobUpload {
    type V = BlobView;

    open spec fn view(&self) -> BlobView {
        BlobView { path: self.path@, content: self.content@ }
    }
}

impl DeepView for BlobUpload {
    type V = BlobView;

    open spec fn deep_view(&self) -> BlobView {
        self@
    }
}

/// Line terminators: splitting keeps each terminator at the end of its line.
pub open spec fn is_break(c: char) -> bool {
    c == '\n' || c == '\r'
}

/// Number of leading characters before the first line terminator
/// (`s.len()` when there is none).
pub open spec fn first_break(s: Seq<char>) -> nat
    decreases s.len(),
{
    if s.len() == 0 {
        0
    } else if is_break(s[0]) {
        0
    } else {
        (1 + first_break(s.drop_first())) as nat
    }
}

/// Split into lines, each keeping its terminator; a final unterminated
/// line is kept as well. The empty text has no lines.
pub open spec fn line_split(s: Seq<char>) -> Seq<Seq<char>>
    decreases s.len(),
{
    if s.len() == 0 {
        Seq::empty()
    } else {
        let d = first_break(s) as int;
        if d >= s.len() {
            seq![s]
        } else {
            seq![s.take(d + 1)] + line_split(s.skip(d + 1))
        }
    }
}

/// Concatenation of a sequence of lines.
pub open spec fn concat_lines(ls: Seq<Seq<char>>) -> Seq<char>
    decreases ls.len(),
{
    if ls.len() == 0 {
        Seq::empty()
    } else {
        concat_lines(ls.drop_last()) + ls.last()
    }
}

pub proof fn lemma_first_break_is(s: Seq<char>, d: int)
    requires
        0 <= d <= s.len(),
        forall|k: int| 0 <= k < d ==> !is_break(s[k]),
        d < s.len() ==> is_break(s[d]),
    ensures
        first_break(s) == d,
    decreases s.len(),
{
    if s.len() == 0 {
    } else if is_break(s[0]) {
        assert(d == 0);
    } else {
        assert(d >= 1);
        let t = s.drop_first();
        assert(forall|k: int| 0 <= k < d - 1 ==> s[k + 1] == t[k] && !is_break(#[trigger] t[k]));
        lemma_first_break_is(t, d - 1);
    }
}

pub proof fn lemma_concat_lines_app(a: Seq<Seq<char>>, b: Seq<Seq<char>>)
    ensures
        concat_lines(a + b) == concat_lines(a) + concat_lines(b),
    decreases b.len(),
{
    if b.len() == 0 {
        assert(a + b =~= a);
        assert(concat_lines(a) + concat_lines(b) =~= concat_lines(a));
    } else {
        assert((a + b).drop_last() =~= a + b.drop_last());
        assert((a + b).last() == b.last());
        lemma_concat_lines_app(a, b.drop_last());
        assert(concat_lines(a + b) =~= concat_lines(a) + concat_lines(b));
    }
}

/// Splitting and re-concatenating gives back the original text.
pub proof fn lemma_line_split_concat(s: Seq<char>)
    ensures
        concat_lines(line_split(s)) == s,
    decreases s.len(),
{
    if s.len() == 0 {
        assert(concat_lines(line_split(s)) =~= s);
    } else {
        let d = first_break(s) as int;
        assert(concat_lines(Seq::<Seq<char>>::empty()) == Seq::<char>::empty());
        if d >= s.len() {
            assert(line_split(s) == seq![s]);
            assert(seq![s].drop_last() =~= Seq::<Seq<char>>::empty());
            assert(concat_lines(seq![s]) == concat_lines(seq![s].drop_last()) + s);
            assert(concat_lines(seq![s]) =~= s);
        } else {
            let head = seq![s.take(d + 1)];
            let rest = s.skip(d + 1);
            lemma_concat_lines_app(head, line_split(rest));
            lemma_line_split_concat(rest);
            assert(head.drop_last() =~= Seq::<Seq<char>>::empty());
            assert(concat_lines(head) == concat_lines(head.drop_last()) + s.take(d + 1));
            assert(concat_lines(head) =~= s.take(d + 1));
            assert(s.take(d + 1) + rest =~= s);
        }
    }
}

/// Split text into lines, keeping terminators.
pub fn split_lines(s: &str) -> (r: Vec<String>)
    ensures
        r.deep_view() == line_split(s@),
{
    let n = s.unicode_len();
    let mut r: Vec<String> = Vec::new();
    let mut start: usize = 0;
    let mut i: usize = 0;
    proof {
        assert(s@.skip(0) =~= s@);
        assert(r.deep_view() =~= Seq::<Seq<char>>::empty());
        assert(r.deep_view() + line_split(s@.skip(0)) =~= line_split(s@));
    }
    while i < n
        invariant
            start <= i <= n,
            n == s@.len(),
            r.deep_view() + line_split(s@.skip(start as int)) == line_split(s@),
            forall|k: int| start <= k < i ==> !is_break(s@[k]),
        decreases n - i,
    {
        let c = s.get_char(i);
        if c == '\n' || c == '\r' {
            let line = s.substring_char(start, i + 1).to_owned();
            let ghost pre = r.deep_view();
            proof {
                let t = s@.skip(start as int);
                assert(forall|k: int| 0 <= k < i - start ==> t[k] == s@[k + start] && !is_break(
                    #[trigger] t[k],
                ));
                assert(is_break(t[i - start]));
                lemma_first_break_is(t, i - start);
                assert(t.take(i - start + 1) =~= s@.subrange(start as int, i + 1));
                assert(t.skip(i - start + 1) =~= s@.skip(i + 1));
                assert(line_split(t) == seq![line@] + line_split(s@.skip(i + 1)));
                assert(pre.push(line@) + line_split(s@.skip(i + 1)) =~= pre + line_split(t));
            }
            r.push(line);
            proof {
                assert(r.deep_view() =~= pre.push(line@));
            }
            start = i + 1;
        }
        i = i + 1;
    }
    if start < n {
        let line = s.substring_char(start, n).to_owned();
        let ghost pre = r.deep_view();
        proof {
            let t = s@.skip(start as int);
            assert(forall|k: int| 0 <= k < t.len() ==> t[k] == s@[k + start] && !is_break(
                #[trigger] t[k],
            ));
            lemma_first_break_is(t, t.len() as int);
            assert(line@ =~= t);
            assert(line_split(t) == seq![line@]);
            assert(pre.push(line@) =~= pre + line_split(t));
        }
        r.push(line);
        proof {
            assert(r.deep_view() =~= pre.push(line@));
        }
    } else {
        proof {
            assert(s@.skip(start as int) =~= Seq::<char>::empty());
            assert(r.deep_view() + line_split(s@.skip(start as int)) =~= r.deep_view());
        }
    }
    r
}

/// Path of the `i`-th of `n` chunks of the file at `rel` (1-indexed).
pub open spec fn chunk_path_spec(rel: Seq<char>, i: nat, n: nat) -> Seq<char> {
    rel + "#chunk"@ + dec_digits(i) + "of"@ + dec_digits(n)
}

/// Render the path of chunk `i` of `n` for the file at `rel`.
pub fn chunk_path(rel: &str, i: usize, n: usize) -> (r: String)
    ensures
        r@ == chunk_path_spec(rel@, i as nat, n as nat),
{
    let mut r = rel.to_owned();
    r.append("#chunk");
    let si = usize_to_string(i);
    r.append(si.as_str());
    r.append("of");
    let sn = usize_to_string(n);
    r.append(sn.as_str());
    assert(r@ =~= chunk_path_spec(rel@, i as nat, n as nat));
    r
}

/// The `k`-th group of at most `m` lines (0-indexed).
pub open spec fn group_of(lines: Seq<Seq<char>>, k: int, m: int) -> Seq<Seq<char>> {
    lines.subrange(
        k * m,
        if k * m + m <= lines.len() {
            k * m + m
        } else {
            lines.len() as int
        },
    )
}

/// The blobs a file at `rel` with text `content` becomes, for a line limit of
/// `m`: one blob under the original path when the text has at most `m` lines,
/// else `ceil(lines / m)` chunk blobs of at most `m` lines each, 1-indexed.
pub open spec fn chunk_blobs(rel: Seq<char>, content: Seq<char>, m: nat) -> Seq<BlobView>
    recommends
        m >= 1,
{
    let lines = line_split(content);
    if lines.len() <= m {
        seq![BlobView { path: rel, content: content }]
    } else {
        let n = ceil_div(lines.len(), m);
        Seq::new(
            n,
            |k: int|
                BlobView {
                    path: chunk_path_spec(rel, (k + 1) as nat, n),
                    content: concat_lines(group_of(lines, k, m as int)),
                },
        )
    }
}

/// Split a file into its blobs.
pub fn chunk_blob(rel: &str, content: &str, max_lines: usize) -> (r: Vec<BlobUpload>)
    requires
        max_lines >= 1,
    ensures
        r.deep_view() == chunk_blobs(rel@, content@, max_lines as nat),
{
    let lines = split_lines(content);
    let mut out: Vec<BlobUpload> = Vec::new();
    let nlines = lines.len();
    if nlines <= max_lines {
        out.push(BlobUpload { path: rel.to_owned(), content: content.to_owned() });
        proof {
            assert(out.deep_view() =~= chunk_blobs(rel@, content@, max_lines as nat));
        }
        return out;
    }
    proof {
        lemma_ceil_div_bounds(nlines as nat, max_lines as nat);
        lemma_ceil_div_computed(nlines as nat, max_lines as nat);
    }
    let nchunks = (nlines - 1) / max_lines + 1;
    let ghost target = chunk_blobs(rel@, content@, max_lines as nat);
    let mut k: usize = 0;
    let mut start: usize = 0;
    while k < nchunks
        invariant
            max_lines >= 1,
            nlines == lines@.len(),
            lines.deep_view() == line_split(content@),
            nlines > max_lines,
            nchunks == ceil_div(nlines as nat, max_lines as nat),
            target == chunk_blobs(rel@, content@, max_lines as nat),
            k <= nchunks,
            k < nchunks ==> start == k * max_lines,
            start <= nlines,
            out.deep_view() == target.take(k as int),
        decreases nchunks - k,
    {
        proof {
            lemma_mul_inequality(k as int, nchunks - 1, max_lines as int);
            lemma_ceil_div_bounds(nlines as nat, max_lines as nat);
            assert(start < nlines);
        }
        let end = if nlines - start < max_lines {
            nlines
        } else {
            start + max_lines
        };
        let mut text = String::new();
        let mut j = start;
        proof {
            assert(text@ =~= concat_lines(lines.deep_view().subrange(start as int, start as int)));
        }
        while j < end
            invariant
                start <= j <= end <= nlines,
                nlines == lines@.len(),
                lines.deep_view() == line_split(content@),
                text@ == concat_lines(lines.deep_view().subrange(start as int, j as int)),
            decreases end - j,
        {
            text.append(lines[j].as_str());
            proof {
                let ls = lines.deep_view();
                assert(ls.subrange(start as int, j + 1).drop_last() =~= ls.subrange(
                    start as int,
                    j as int,
                ));
                assert(ls.subrange(start as int, j + 1).last() == ls[j as int]);
                assert(text@ =~= concat_lines(ls.subrange(start as int, j + 1)));
            }
            j = j + 1;
        }
        let path = chunk_path(rel, k + 1, nchunks);
        let ghost pre = out.deep_view();
        out.push(BlobUpload { path, content: text });
        proof {
            let ls = lines.deep_view();
            assert(group_of(ls, k as int, max_lines as int) =~= ls.subrange(
                start as int,
                end as int,
            ));
            assert(out.deep_view() =~= pre.push(target[k as int]));
            assert(out.deep_view() =~= target.take(k + 1));
            if k + 1 < nchunks {
                lemma_mul_inequality(k + 1, nchunks - 1, max_lines as int);
                assert((k + 1) * max_lines == k * max_lines + max_lines) by (nonlinear_arith);
                assert(end == (k + 1) * max_lines);
            }
        }
        k = k + 1;
        start = end;
    }
    proof {
        assert(out.deep_view() =~= target);
    }
    out
}

/// The chunk contents of `lines` grouped `m` at a time.
pub open spec fn group_contents(lines: Seq<Seq<char>>, m: nat) -> Seq<Seq<char>> {
    Seq::new(ceil_div(lines.len(), m), |k: int| concat_lines(group_of(lines, k, m as int)))
}

/// Chunking is lossless: the chunk contents concatenate back to the original
/// text, there are `ceil(lines / m)` chunks (one blob when the text fits the
/// limit), and chunk paths carry their 1-indexed position.
pub proof fn lemma_chunk_round_trip(rel: Seq<char>, content: Seq<char>, m: nat)
    requires
        m >= 1,
    ensures
        ({
            let bs = chunk_blobs(rel, content, m);
            let nl = line_split(content).len();
            &&& bs.len() == if nl <= m {
                1nat
            } else {
                ceil_div(nl, m)
            }
            &&& concat_lines(bs.map_values(|b: BlobView| b.content)) == content
            &&& (nl <= m ==> bs[0].path == rel && bs[0].content == content)
            &&& (nl > m ==> forall|k: int|
                0 <= k < bs.len() ==> (#[trigger] bs[k]).path == chunk_path_spec(
                    rel,
                    (k + 1) as nat,
                    bs.len() as nat,
                ))
        }),
{
    let bs = chunk_blobs(rel, content, m);
    let lines = line_split(content);
    let nl = lines.len();
    lemma_line_split_concat(content);
    if nl <= m {
        let cs = bs.map_values(|b: BlobView| b.content);
        assert(cs =~= seq![content]);
        assert(seq![content].drop_last() =~= Seq::<Seq<char>>::empty());
        assert(concat_lines(Seq::<Seq<char>>::empty()) == Seq::<char>::empty());
        assert(concat_lines(seq![content]) == concat_lines(seq![content].drop_last()) + content);
        assert(concat_lines(cs) =~= content);
    } else {
        let n = ceil_div(nl, m);
        lemma_ceil_div_bounds(nl, m);
        let cs = bs.map_values(|b: BlobView| b.content);
        lemma_groups_concat(lines, m, n as int);
        let gs = group_contents(lines, m);
        assert(cs =~= gs);
        assert(gs.take(n as int) =~= gs);
        assert(lines.take(
            if n * m <= nl {
                (n * m) as int
            } else {
                nl as int
            },
        ) =~= lines);
        assert(concat_lines(cs) == content);
    }
}

/// Concatenating the first `j` group contents equals concatenating the first
/// `min(j * m, lines.len())` lines.
proof fn lemma_groups_concat(lines: Seq<Seq<char>>, m: nat, j: int)
    requires
        m >= 1,
        0 <= j <= ceil_div(lines.len(), m),
    ensures
        concat_lines(group_contents(lines, m).take(j)) == concat_lines(
            lines.take(
                if j * m <= lines.len() {
                    j * m
                } else {
                    lines.len() as int
                },
            ),
        ),
    decreases j,
{
    let n = ceil_div(lines.len(), m);
    let gs = group_contents(lines, m);
    if j == 0 {
        assert(j * m == 0) by (nonlinear_arith)
            requires j == 0,
        ;
        assert(gs.take(0) =~= Seq::<Seq<char>>::empty());
        assert(lines.take(0) =~= Seq::<Seq<char>>::empty());
    } else {
        lemma_groups_concat(lines, m, j - 1);
        lemma_ceil_div_bounds(lines.len(), m);
        lemma_mul_inequality(j - 1, n - 1, m as int);
        assert((j - 1) * m < lines.len());
        assert((j - 1) * m == j * m - m) by (nonlinear_arith);
        let lo = (j - 1) * m;
        let hi = if j * m <= lines.len() {
            j * m
        } else {
            lines.len() as int
        };
        assert(gs.take(j).drop_last() =~= gs.take(j - 1));
        assert(gs.take(j).last() == gs[j - 1]);
        assert(group_of(lines, j - 1, m as int) =~= lines.subrange(lo, hi));
        lemma_concat_lines_app(lines.take(lo), lines.subrange(lo, hi));
        assert(lines.take(lo) + lines.subrange(lo, hi) =~= lines.take(hi));
        assert(concat_lines(gs.take(j)) == concat_lines(gs.take(j - 1)) + concat_lines(
            lines.subrange(lo, hi),
        ));
        assert(concat_lines(gs.take(j)) == concat_lines(lines.take(hi)));
    }
}

} // verus!
