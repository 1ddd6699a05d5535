//! The blob collector's computing half: given the files a traversal found
//! (project-relative path plus raw bytes), drop those an ignore rule or an
//! exclude glob matches, keep only the allowed extensions
//! (case-insensitively), decode bytes to text with the UTF-8-then-legacy
//! fallback chain, and split each survivor into blobs.

use vstd::prelude::*;
use vstd::utf8::{decode_utf8, valid_utf8};
use crate::blob::{chunk_blob, chunk_blobs, BlobUpload, BlobView};

verus! {

#[verifier::external_type_specification]
#[verifier::external_body]
pub struct ExGlob(globset::Glob);

#[verifier::external_type_specification]
#[verifier::external_body]
pub struct ExGlobSetBuilder(globset::GlobSetBuilder);

#[verifier::external_type_specification]
#[verifier::external_body]
pub struct ExGlobSet(globset::GlobSet);

#[verifier::external_type_specification]
#[verifier::external_body]
pub struct ExGitignoreBuilder(ignore::gitignore::GitignoreBuilder);

#[verifier::external_type_specification]
#[verifier::external_body]
pub struct ExGitignore(ignore::gitignore::Gitignore);

/// Whether globset accepts `pat` as a glob pattern.
pub uninterp spec fn glob_ok(pat: Seq<char>) -> bool;

/// The pattern a compiled glob was built from.
pub uninterp spec fn glob_pattern(g: globset::Glob) -> Seq<char>;

/// Whether the glob compiled from `pat` matches `path`, as globset decides
/// it. The contracts apply it only to backslash-free paths, on which the
/// decision is a function of the pattern and the path alone on every
/// platform (globset rewrites backslashes on some platforms).
pub uninterp spec fn glob_match(pat: Seq<char>, path: Seq<char>) -> bool;

/// The patterns added to a glob-set builder, in order.
pub uninterp spec fn globset_builder_patterns(b: globset::GlobSetBuilder) -> Seq<Seq<char>>;

/// The patterns a built glob set was made from.
pub uninterp spec fn globset_patterns(gs: globset::GlobSet) -> Seq<Seq<char>>;

/// Whether globset's build step succeeds for these patterns (it fails when
/// the compiled automaton exceeds the crate's size limit).
pub uninterp spec fn globset_build_ok(pats: Seq<Seq<char>>) -> bool;

/// Relies on globset::Glob::new: it accepts or rejects the pattern by its
/// syntax alone, and the compiled glob carries that pattern.
#[verifier::external_body]
fn glob_new(pat: &str) -> (r: Option<globset::Glob>)
    ensures
        r is Some <==> glob_ok(pat@),
        r matches Some(g) ==> glob_pattern(g) == pat@,
{
    globset::Glob::new(pat).ok()
}

/// Relies on globset::GlobSetBuilder::new: a fresh builder holds no
/// patterns.
#[verifier::external_body]
fn globset_builder_new() -> (b: globset::GlobSetBuilder)
    ensures
        globset_builder_patterns(b) == Seq::<Seq<char>>::empty(),
{
    globset::GlobSetBuilder::new()
}

/// Relies on globset::GlobSetBuilder::add: the builder takes the glob.
#[verifier::external_body]
fn globset_builder_add(b: &mut globset::GlobSetBuilder, g: globset::Glob)
    ensures
        globset_builder_patterns(*final(b)) == globset_builder_patterns(*old(b)).push(
            glob_pattern(g),
        ),
{
    let _ = b.add(g);
}

/// Relies on globset::GlobSetBuilder::build, which fails (rather than
/// panicking later) when the set is over the crate's size limit.
#[verifier::external_body]
fn globset_builder_build(b: &globset::GlobSetBuilder) -> (r: Option<globset::GlobSet>)
    ensures
        r is Some <==> globset_build_ok(globset_builder_patterns(*b)),
        r matches Some(gs) ==> globset_patterns(gs) == globset_builder_patterns(*b),
{
    b.build().ok()
}

/// Relies on globset::GlobSet::is_match: true exactly when some glob of the
/// set matches, each deciding as its pattern alone says for a backslash-free
/// path.
#[verifier::external_body]
fn globset_is_match(gs: &globset::GlobSet, path: &str) -> (r: bool)
    requires
        forall|i: int| 0 <= i < path@.len() ==> path@[i] != '\\',
    ensures
        r == (exists|i: int|
            0 <= i < globset_patterns(*gs).len() && glob_match(
                #[trigger] globset_patterns(*gs)[i],
                path@,
            )),
{
    gs.is_match(path)
}

/// The ignore-rule lines handed to a builder, in order.
pub uninterp spec fn builder_lines(b: ignore::gitignore::GitignoreBuilder) -> Seq<Seq<char>>;

/// The ignore-rule lines a built matcher was made from.
pub uninterp spec fn gitignore_lines(g: ignore::gitignore::Gitignore) -> Seq<Seq<char>>;

/// Whether ignore's build step succeeds for these lines.
pub uninterp spec fn gitignore_build_ok(lines: Seq<Seq<char>>) -> bool;

/// Whether a matcher built from `lines` ignores `path` or one of its parent
/// directories. A line the crate cannot parse is dropped by it. The
/// contracts apply this only to platform-relative paths, on which the
/// decision is a function of the lines and the path alone on every
/// platform.
pub uninterp spec fn gitignore_match(lines: Seq<Seq<char>>, path: Seq<char>) -> bool;

/// No colon before the first slash: the leading component is not a drive
/// prefix.
pub open spec fn no_drive_prefix(path: Seq<char>) -> bool
    decreases path.len(),
{
    if path.len() == 0 {
        true
    } else if path[0] == '/' {
        true
    } else if path[0] == ':' {
        false
    } else {
        no_drive_prefix(path.drop_first())
    }
}

/// A path that is relative on every platform: non-empty, not rooted by a
/// slash or backslash, free of backslashes, and without a drive-letter
/// colon in its first component.
pub open spec fn platform_relative(path: Seq<char>) -> bool {
    &&& path.len() > 0
    &&& path[0] != '/'
    &&& (forall|i: int| 0 <= i < path.len() ==> path[i] != '\\')
    &&& no_drive_prefix(path)
}

/// Relies on ignore::gitignore::GitignoreBuilder::new: a fresh builder,
/// rooted at the empty path so relative paths match as given, holds no
/// lines yet.
#[verifier::external_body]
fn gitignore_builder_new() -> (b: ignore::gitignore::GitignoreBuilder)
    ensures
        builder_lines(b) == Seq::<Seq<char>>::empty(),
{
    ignore::gitignore::GitignoreBuilder::new("")
}

/// Relies on ignore::gitignore::GitignoreBuilder::add_line with no source
/// file: the builder takes the line.
#[verifier::external_body]
fn gitignore_builder_add(b: &mut ignore::gitignore::GitignoreBuilder, line: &str)
    ensures
        builder_lines(*final(b)) == builder_lines(*old(b)).push(line@),
{
    let _ = b.add_line(None, line);
}

/// Relies on ignore::gitignore::GitignoreBuilder::build.
#[verifier::external_body]
fn gitignore_builder_build(b: &ignore::gitignore::GitignoreBuilder) -> (r: Option<
    ignore::gitignore::Gitignore,
>)
    ensures
        r is Some <==> gitignore_build_ok(builder_lines(*b)),
        r matches Some(g) ==> gitignore_lines(g) == builder_lines(*b),
{
    b.build().ok()
}

/// Relies on ignore::gitignore::Gitignore::matched_path_or_any_parents with
/// `is_dir` false, which panics on a rooted path; a path that is relative
/// on every platform (no leading slash, no backslash, no drive prefix)
/// never has a root.
#[verifier::external_body]
fn gitignore_is_ignored(g: &ignore::gitignore::Gitignore, rel: &str) -> (r: bool)
    requires
        platform_relative(rel@),
    ensures
        r == gitignore_match(gitignore_lines(*g), rel@),
{
    match g.matched_path_or_any_parents(rel, false) {
        ignore::Match::Ignore(_) => true,
        ignore::Match::Whitelist(_) => false,
        ignore::Match::None => false,
    }
}

/// The text encoding_rs's GBK decoder produces for `bytes`.
pub uninterp spec fn gbk_decoded(bytes: Seq<u8>) -> Seq<char>;

/// Relies on std::str::from_utf8: it succeeds exactly on valid UTF-8, which
/// it decodes.
#[verifier::external_body]
fn try_utf8(bytes: &Vec<u8>) -> (r: Option<String>)
    ensures
        r is Some <==> valid_utf8(bytes@),
        r matches Some(s) ==> s@ == decode_utf8(bytes@),
{
    match std::str::from_utf8(bytes.as_slice()) {
        Ok(s) => Some(s.to_string()),
        Err(_) => None,
    }
}

/// Relies on encoding_rs::GBK.decode: a function of the bytes alone that
/// never fails (unmappable bytes become replacement characters).
#[verifier::external_body]
fn decode_gbk(bytes: &Vec<u8>) -> (s: String)
    ensures
        s@ == gbk_decoded(bytes@),
{
    let (cow, _, _) = encoding_rs::GBK.decode(bytes.as_slice());
    cow.into_owned()
}

/// What file bytes decode to: strict UTF-8 when they are valid UTF-8, else
/// the legacy (GBK) fallback, which never fails.
pub open spec fn decoded_text(bytes: Seq<u8>) -> Seq<char> {
    if valid_utf8(bytes) {
        decode_utf8(bytes)
    } else {
        gbk_decoded(bytes)
    }
}

/// Decode file bytes to text; never an error.
pub fn decode_text(bytes: &Vec<u8>) -> (s: String)
    ensures
        s@ == decoded_text(bytes@),
{
    match try_utf8(bytes) {
        Some(s) => s,
        None => decode_gbk(bytes),
    }
}

/// The largest index of `c` in `s`, or -1 when `c` does not occur.
pub open spec fn last_index_of(s: Seq<char>, c: char) -> int
    decreases s.len(),
{
    if s.len() == 0 {
        -1
    } else if s.last() == c {
        s.len() - 1
    } else {
        last_index_of(s.drop_last(), c)
    }
}

pub proof fn lemma_last_index_is(s: Seq<char>, c: char, k: int)
    requires
        -1 <= k < s.len(),
        k >= 0 ==> s[k] == c,
        forall|m: int| k < m < s.len() ==> s[m] != c,
    ensures
        last_index_of(s, c) == k,
    decreases s.len(),
{
    if s.len() > 0 && s.last() != c {
        lemma_last_index_is(s.drop_last(), c, k);
    }
}

/// The final path component.
pub open spec fn file_name_of(path: Seq<char>) -> Seq<char> {
    path.skip(last_index_of(path, '/') + 1)
}

/// The extension of the file name: what follows the last dot, unless the
/// only dot leads the name (a hidden file) or there is none.
pub open spec fn ext_of(path: Seq<char>) -> Option<Seq<char>> {
    let f = file_name_of(path);
    let d = last_index_of(f, '.');
    if d <= 0 {
        None
    } else {
        Some(f.skip(d + 1))
    }
}

/// The lower-cased form of a character sequence, as str::to_lowercase
/// computes it.
pub uninterp spec fn lower_of(s: Seq<char>) -> Seq<char>;

/// Relies on str::to_lowercase: the result depends on the characters alone.
#[verifier::external_body]
fn lowercase(s: &str) -> (r: String)
    ensures
        r@ == lower_of(s@),
{
    s.to_lowercase()
}

/// Whether the allow-list entry `stored` is the dot plus the lower-cased
/// extension.
pub open spec fn ext_matches(ext: Seq<char>, stored: Seq<char>) -> bool {
    stored == seq!['.'] + lower_of(ext)
}

/// Whether the path's extension, lower-cased and with a leading dot, is in
/// the allow-list.
pub open spec fn is_text_ext_spec(path: Seq<char>, exts: Seq<Seq<char>>) -> bool {
    match ext_of(path) {
        Some(e) => exists|i: int| 0 <= i < exts.len() && ext_matches(e, exts[i]),
        None => false,
    }
}

/// Decide whether a file, by its path, has an allowed text extension.
pub fn is_text_ext(path: &str, text_exts: &Vec<String>) -> (r: bool)
    ensures
        r == is_text_ext_spec(path@, text_exts.deep_view()),
{
    let n = path.unicode_len();
    // locate the last '/' and the last '.' in one backwards-compatible scan
    let mut slash: usize = n;  // n means none found; index otherwise
    let mut dot: usize = n;
    let mut i: usize = 0;
    while i < n
        invariant
            i <= n,
            n == path@.len(),
            slash == n || (slash < i && path@[slash as int] == '/'),
            forall|m: int| (if slash == n { 0 } else { slash + 1 }) <= m < i ==> path@[m] != '/',
            slash != n ==> forall|m: int| slash < m < i ==> path@[m] != '/',
            dot == n || (dot < i && path@[dot as int] == '.'),
            forall|m: int| (if dot == n { 0 } else { dot + 1 }) <= m < i ==> path@[m] != '.',
            dot != n ==> forall|m: int| dot < m < i ==> path@[m] != '.',
        decreases n - i,
    {
        let c = path.get_char(i);
        if c == '/' {
            slash = i;
        }
        if c == '.' {
            dot = i;
        }
        i = i + 1;
    }
    proof {
        if slash == n {
            lemma_last_index_is(path@, '/', -1);
        } else {
            lemma_last_index_is(path@, '/', slash as int);
        }
        if dot == n {
            lemma_last_index_is(path@, '.', -1);
        } else {
            lemma_last_index_is(path@, '.', dot as int);
        }
    }
    // the extension exists when the last dot lies strictly inside the file name
    let fn_start: usize = if slash == n {
        0
    } else {
        slash + 1
    };
    if dot == n || dot <= fn_start {
        proof {
            let f = file_name_of(path@);
            assert(f =~= path@.subrange(fn_start as int, n as int));
            assert(forall|m: int| 0 <= m < f.len() ==> f[m] == path@[m + fn_start]);
            let d = last_index_of(f, '.');
            if dot == n || dot < fn_start {
                lemma_last_index_is(f, '.', -1);
            } else {
                lemma_last_index_is(f, '.', dot - fn_start);
            }
            assert(d <= 0);
        }
        return false;
    }
    proof {
        let f = file_name_of(path@);
        assert(f =~= path@.subrange(fn_start as int, n as int));
        assert(f.len() == n - fn_start);
        assert(forall|m: int| 0 <= m < f.len() ==> f[m] == path@[m + fn_start]);
        assert(f[dot - fn_start] == '.');
        assert(forall|m: int| dot - fn_start < m < f.len() ==> f[m] != '.');
        lemma_last_index_is(f, '.', dot - fn_start);
        assert(f.skip(dot - fn_start + 1) =~= path@.skip(dot + 1));
        assert(ext_of(path@) matches Some(e) && e =~= path@.skip(dot + 1));
    }
    let ext_str = path.substring_char(dot + 1, n);
    let lowered = lowercase(ext_str);
    let mut dotted = ".".to_owned();
    dotted.append(lowered.as_str());
    proof {
        reveal_strlit(".");
        assert(ext_str@ =~= path@.skip(dot + 1));
        assert(dotted@ =~= seq!['.'] + lower_of(path@.skip(dot + 1)));
    }
    let m = text_exts.len();
    let mut t: usize = 0;
    while t < m
        invariant
            t <= m,
            m == text_exts@.len(),
            n == path@.len(),
            dot < n,
            ext_of(path@) matches Some(e) && e == path@.skip(dot + 1),
            dotted@ == seq!['.'] + lower_of(path@.skip(dot + 1)),
            forall|k: int|
                0 <= k < t ==> !ext_matches(
                    path@.skip(dot + 1),
                    #[trigger] text_exts.deep_view()[k],
                ),
        decreases m - t,
    {
        proof {
            assert(text_exts.deep_view()[t as int] == text_exts@[t as int]@);
        }
        if text_exts[t] == dotted {
            return true;
        }
        t = t + 1;
    }
    false
}

/// One file a traversal found: its project-relative, forward-slash path and
/// its raw bytes.
pub struct SourceFile {
    pub rel_path: String,
    pub bytes: Vec<u8>,
}

/// Mathematical image of a found file.
pub struct SourceFileView {
    pub rel_path: Seq<char>,
    pub bytes: Seq<u8>,
}

impl View for SourceFile {
    type V = SourceFileView;

    open spec fn view(&self) -> SourceFileView {
        SourceFileView { rel_path: self.rel_path@, bytes: self.bytes@ }
    }
}

impl DeepView for SourceFile {
    type V = SourceFileView;

    open spec fn deep_view(&self) -> SourceFileView {
        self@
    }
}

/// Why a collection pass was refused.
#[derive(Debug)]
pub enum CollectError {
    /// An exclude pattern that globset rejects; it is carried here.
    InvalidPattern(String),
    /// The exclude-pattern set exceeds globset's size limit.
    PatternBuild,
    /// The ignore-rule matcher could not be built.
    IgnoreBuild,
}

/// Whether some exclude pattern matches the path.
pub open spec fn excluded(pats: Seq<Seq<char>>, rel: Seq<char>) -> bool {
    exists|i: int| 0 <= i < pats.len() && glob_match(pats[i], rel)
}

/// Whether a found file survives the filters: not ignored, not excluded,
/// and of an allowed extension.
pub open spec fn keep_file(
    f: SourceFileView,
    ig_lines: Seq<Seq<char>>,
    pats: Seq<Seq<char>>,
    exts: Seq<Seq<char>>,
) -> bool {
    &&& !gitignore_match(ig_lines, f.rel_path)
    &&& !excluded(pats, f.rel_path)
    &&& is_text_ext_spec(f.rel_path, exts)
}

/// The blobs a collection pass produces: for each surviving file in input
/// order, its decoded text split into blobs.
pub open spec fn collect_spec(
    files: Seq<SourceFileView>,
    ig_lines: Seq<Seq<char>>,
    pats: Seq<Seq<char>>,
    exts: Seq<Seq<char>>,
    m: nat,
) -> Seq<BlobView>
    decreases files.len(),
{
    if files.len() == 0 {
        Seq::empty()
    } else {
        collect_spec(files.drop_last(), ig_lines, pats, exts, m) + if keep_file(
            files.last(),
            ig_lines,
            pats,
            exts,
        ) {
            chunk_blobs(files.last().rel_path, decoded_text(files.last().bytes), m)
        } else {
            Seq::empty()
        }
    }
}

/// Collect the blobs of a project from the files its traversal found,
/// honoring the ignore rules and the exclude patterns, keeping only allowed
/// extensions, decoding with the encoding fallback chain, and splitting
/// oversized files; it fails exactly when globset rejects an exclude
/// pattern, the pattern set is over globset's size limit, or the ignore
/// matcher cannot be built.
pub fn collect_blobs(
    files: &Vec<SourceFile>,
    ignore_lines: &Vec<String>,
    exclude_patterns: &Vec<String>,
    text_exts: &Vec<String>,
    max_lines: usize,
) -> (r: Result<Vec<BlobUpload>, CollectError>)
    requires
        max_lines >= 1,
        forall|i: int|
            0 <= i < files@.len() ==> platform_relative((#[trigger] files@[i]).rel_path@),
    ensures
        r matches Ok(bs) ==> bs.deep_view() == collect_spec(
            files.deep_view(),
            ignore_lines.deep_view(),
            exclude_patterns.deep_view(),
            text_exts.deep_view(),
            max_lines as nat,
        ),
        r is Ok <==> gitignore_build_ok(ignore_lines.deep_view()) && (forall|i: int|
            0 <= i < exclude_patterns@.len() ==> glob_ok(
                #[trigger] exclude_patterns.deep_view()[i],
            )) && globset_build_ok(exclude_patterns.deep_view()),
        r matches Err(CollectError::InvalidPattern(p)) ==> !glob_ok(p@)
            && exclude_patterns.deep_view().contains(p@),
        r matches Err(CollectError::PatternBuild) ==> !globset_build_ok(
            exclude_patterns.deep_view(),
        ),
        r matches Err(CollectError::IgnoreBuild) ==> !gitignore_build_ok(
            ignore_lines.deep_view(),
        ),
{
    // the ignore matcher
    let mut builder = gitignore_builder_new();
    let nl = ignore_lines.len();
    let mut i: usize = 0;
    while i < nl
        invariant
            i <= nl,
            nl == ignore_lines@.len(),
            builder_lines(builder) == ignore_lines.deep_view().take(i as int),
        decreases nl - i,
    {
        gitignore_builder_add(&mut builder, ignore_lines[i].as_str());
        proof {
            assert(builder_lines(builder) =~= ignore_lines.deep_view().take(i + 1));
        }
        i = i + 1;
    }
    proof {
        assert(ignore_lines.deep_view().take(nl as int) =~= ignore_lines.deep_view());
    }
    let gi = match gitignore_builder_build(&builder) {
        Some(g) => g,
        None => {
            return Err(CollectError::IgnoreBuild);
        },
    };
    // the exclude globs, combined into one set as the patterns are compiled
    let np = exclude_patterns.len();
    let mut gsb = globset_builder_new();
    let mut p: usize = 0;
    while p < np
        invariant
            p <= np,
            np == exclude_patterns@.len(),
            globset_builder_patterns(gsb) == exclude_patterns.deep_view().take(p as int),
            forall|k: int| 0 <= k < p ==> glob_ok(#[trigger] exclude_patterns.deep_view()[k]),
        decreases np - p,
    {
        proof {
            assert(exclude_patterns.deep_view()[p as int] == exclude_patterns@[p as int]@);
        }
        match glob_new(exclude_patterns[p].as_str()) {
            Some(g) => {
                globset_builder_add(&mut gsb, g);
                proof {
                    assert(globset_builder_patterns(gsb) =~= exclude_patterns.deep_view().take(
                        p + 1,
                    ));
                }
            },
            None => {
                return Err(CollectError::InvalidPattern(exclude_patterns[p].clone()));
            },
        }
        p = p + 1;
    }
    proof {
        assert(exclude_patterns.deep_view().take(np as int) =~= exclude_patterns.deep_view());
    }
    let gs = match globset_builder_build(&gsb) {
        Some(s) => s,
        None => {
            return Err(CollectError::PatternBuild);
        },
    };
    // filter, decode, split
    let nf = files.len();
    let mut out: Vec<BlobUpload> = Vec::new();
    let ghost igl = ignore_lines.deep_view();
    let ghost pats = exclude_patterns.deep_view();
    let ghost exts = text_exts.deep_view();
    proof {
        assert(out.deep_view() =~= collect_spec(
            files.deep_view().take(0),
            igl,
            pats,
            exts,
            max_lines as nat,
        ));
    }
    let mut f: usize = 0;
    while f < nf
        invariant
            f <= nf,
            nf == files@.len(),
            max_lines >= 1,
            forall|k: int|
                0 <= k < files@.len() ==> platform_relative((#[trigger] files@[k]).rel_path@),
            gitignore_lines(gi) == igl,
            igl == ignore_lines.deep_view(),
            pats == exclude_patterns.deep_view(),
            exts == text_exts.deep_view(),
            gitignore_build_ok(igl),
            forall|k: int| 0 <= k < pats.len() ==> glob_ok(#[trigger] pats[k]),
            globset_build_ok(pats),
            globset_patterns(gs) == pats,
            out.deep_view() == collect_spec(
                files.deep_view().take(f as int),
                igl,
                pats,
                exts,
                max_lines as nat,
            ),
        decreases nf - f,
    {
        let rel = &files[f].rel_path;
        let ghost fv = files.deep_view()[f as int];
        proof {
            assert(platform_relative(fv.rel_path));
        }
        let ignored = gitignore_is_ignored(&gi, rel.as_str());
        let excl = globset_is_match(&gs, rel.as_str());
        proof {
            assert(excl == excluded(pats, fv.rel_path)) by {
                if excl {
                    let k = choose|k: int|
                        0 <= k < globset_patterns(gs).len() && glob_match(
                            #[trigger] globset_patterns(gs)[k],
                            rel@,
                        );
                    assert(glob_match(pats[k], fv.rel_path));
                }
                if excluded(pats, fv.rel_path) {
                    let k = choose|k: int|
                        0 <= k < pats.len() && glob_match(#[trigger] pats[k], fv.rel_path);
                    assert(glob_match(globset_patterns(gs)[k], rel@));
                }
            }
        }
        let keep = if ignored || excl {
            false
        } else {
            is_text_ext(rel.as_str(), text_exts)
        };
        let ghost pre = out.deep_view();
        if keep {
            let text = decode_text(&files[f].bytes);
            let mut chunks = chunk_blob(rel.as_str(), text.as_str(), max_lines);
            let ghost cview = chunks.deep_view();
            out.append(&mut chunks);
            proof {
                assert(out.deep_view() =~= pre + cview);
            }
        }
        proof {
            let fs = files.deep_view();
            assert(fs.take(f + 1).drop_last() =~= fs.take(f as int));
            assert(fs.take(f + 1).last() == fv);
            if keep {
                assert(keep_file(fv, igl, pats, exts));
                assert(out.deep_view() =~= collect_spec(
                    fs.take(f + 1),
                    igl,
                    pats,
                    exts,
                    max_lines as nat,
                ));
            } else {
                assert(!keep_file(fv, igl, pats, exts));
                assert(out.deep_view() =~= collect_spec(
                    fs.take(f + 1),
                    igl,
                    pats,
                    exts,
                    max_lines as nat,
                ));
            }
        }
        f = f + 1;
    }
    proof {
        assert(files.deep_view().take(nf as int) =~= files.deep_view());
    }
    Ok(out)
}

} // verus!
