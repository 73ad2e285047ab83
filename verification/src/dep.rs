//! Classification of source-file paths for display.
//!
//! A path is split into its separator-delimited segments and matched
//! against the layouts of the public package-registry cache, of a
//! toolchain's standard-library source tree, and of the remapped compiler
//! source tree; anything else is kept verbatim.  The classified path can
//! be rendered shortened (registry and toolchain boilerplate folded away)
//! or at full length.

use vstd::prelude::*;
use vstd::string::StrSliceExecFns;
use vstd::string::StringExecFns;

use crate::demangle::is_hex_digit;

verus! {

/// Is `c` a path separator?  Both the Unix and the Windows separator are
/// recognized, whatever machine the path was recorded on.
pub open spec fn is_sep(c: char) -> bool {
    c == '/' || c == '\\'
}

/// The fold that splits `s` into nonempty segments: position `i`, the
/// segment read so far, and the segments already complete.
pub open spec fn split_from(s: Seq<char>, i: int, cur: Seq<char>, acc: Seq<Seq<char>>) -> Seq<
    Seq<char>,
>
    decreases s.len() - i,
{
    if i < 0 || i >= s.len() {
        if cur.len() > 0 {
            acc.push(cur)
        } else {
            acc
        }
    } else if is_sep(s[i]) {
        split_from(
            s,
            i + 1,
            Seq::empty(),
            if cur.len() > 0 {
                acc.push(cur)
            } else {
                acc
            },
        )
    } else {
        split_from(s, i + 1, cur.push(s[i]), acc)
    }
}

/// The nonempty separator-delimited segments of `s`, in order.
pub open spec fn segments(s: Seq<char>) -> Seq<Seq<char>> {
    split_from(s, 0, Seq::empty(), Seq::empty())
}

/// Do the segments at `i` open a standard-library source tree: the
/// `toolchains` directory, a toolchain, then `lib/rustlib/src/rust`, with
/// at least one further segment?
pub open spec fn rust_std_at(segs: Seq<Seq<char>>, i: int) -> bool {
    &&& 0 <= i
    &&& i + 6 < segs.len()
    &&& segs[i] == "toolchains"@
    &&& segs[i + 2] == "lib"@
    &&& segs[i + 3] == "rustlib"@
    &&& segs[i + 4] == "src"@
    &&& segs[i + 5] == "rust"@
}

/// The first position at or after `i` where a standard-library source
/// tree opens.
pub open spec fn first_rust_std(segs: Seq<Seq<char>>, i: int) -> Option<int>
    decreases segs.len() - i,
{
    if i < 0 || i >= segs.len() {
        None
    } else if rust_std_at(segs, i) {
        Some(i)
    } else {
        first_rust_std(segs, i + 1)
    }
}

/// Do the segments at `i` open a registry cache: `registry/src`, an index
/// host, a crate directory, and at least one further segment?
pub open spec fn cratesio_at(segs: Seq<Seq<char>>, i: int) -> bool {
    &&& 0 <= i
    &&& i + 4 < segs.len()
    &&& segs[i] == "registry"@
    &&& segs[i + 1] == "src"@
}

/// The first position at or after `i` where a registry cache opens.
pub open spec fn first_cratesio(segs: Seq<Seq<char>>, i: int) -> Option<int>
    decreases segs.len() - i,
{
    if i < 0 || i >= segs.len() {
        None
    } else if cratesio_at(segs, i) {
        Some(i)
    } else {
        first_cratesio(segs, i + 1)
    }
}

/// Is this a remapped compiler-source path: a leading `rustc` segment, a
/// 40-digit commit hash, and at least one further segment?
pub open spec fn is_rustc_path(segs: Seq<Seq<char>>) -> bool {
    &&& segs.len() >= 3
    &&& segs[0] == "rustc"@
    &&& segs[1].len() == 40
    &&& forall|i: int| 0 <= i < 40 ==> is_hex_digit(#[trigger] segs[1][i])
}

/// The segments joined back with the Unix separator.
pub open spec fn join_segs(segs: Seq<Seq<char>>) -> Seq<char>
    decreases segs.len(),
{
    if segs.len() == 0 {
        Seq::empty()
    } else if segs.len() == 1 {
        segs[0]
    } else {
        segs[0] + seq!['/'] + join_segs(segs.drop_first())
    }
}

/// Joining one more segment appends a separator and the segment, unless
/// nothing was joined yet.
pub proof fn lemma_join_push(segs: Seq<Seq<char>>, t: Seq<char>)
    ensures
        join_segs(segs.push(t)) == if segs.len() == 0 {
            t
        } else {
            join_segs(segs) + seq!['/'] + t
        },
    decreases segs.len(),
{
    if segs.len() == 0 {
        assert(segs.push(t)[0] == t);
    } else {
        assert(segs.push(t).drop_first() =~= segs.drop_first().push(t));
        lemma_join_push(segs.drop_first(), t);
        assert(segs.push(t)[0] == segs[0]);
        if segs.len() > 1 {
            assert(segs[0] + seq!['/'] + (join_segs(segs.drop_first()) + seq!['/'] + t) =~= (segs[0]
                + seq!['/'] + join_segs(segs.drop_first())) + seq!['/'] + t);
        }
    }
}

/// A classified source-file path, in spec form.
pub enum PathSpec {
    Cratesio { crate_dir: Seq<char>, rest: Seq<char>, full: Seq<char> },
    RustStd { toolchain: Seq<char>, rest: Seq<char>, full: Seq<char> },
    Rustc { commit: Seq<char>, rest: Seq<char>, full: Seq<char> },
    Verbatim(Seq<char>),
}

/// How a path is classified: the first standard-library match wins, then
/// the remapped compiler layout, then the first registry match, and
/// anything else is verbatim.
pub open spec fn spec_classify(s: Seq<char>) -> PathSpec {
    let segs = segments(s);
    match first_rust_std(segs, 0) {
        Some(i) => PathSpec::RustStd {
            toolchain: segs[i + 1],
            rest: join_segs(segs.subrange(i + 6, segs.len() as int)),
            full: s,
        },
        None => if is_rustc_path(segs) {
            PathSpec::Rustc {
                commit: segs[1],
                rest: join_segs(segs.subrange(2, segs.len() as int)),
                full: s,
            }
        } else {
            match first_cratesio(segs, 0) {
                Some(i) => PathSpec::Cratesio {
                    crate_dir: segs[i + 3],
                    rest: join_segs(segs.subrange(i + 4, segs.len() as int)),
                    full: s,
                },
                None => PathSpec::Verbatim(s),
            }
        },
    }
}

/// The shortened rendering: boilerplate folded into a bracketed marker.
pub open spec fn spec_format_short(p: PathSpec) -> Seq<char> {
    match p {
        PathSpec::Cratesio { crate_dir, rest, .. } => "["@ + crate_dir + "]/"@ + rest,
        PathSpec::RustStd { rest, .. } => "[rust-std]/"@ + rest,
        PathSpec::Rustc { rest, .. } => "[rust]/"@ + rest,
        PathSpec::Verbatim(s) => s,
    }
}

/// The full-length rendering: the path as it was given.
pub open spec fn spec_format_full(p: PathSpec) -> Seq<char> {
    match p {
        PathSpec::Cratesio { full, .. } => full,
        PathSpec::RustStd { full, .. } => full,
        PathSpec::Rustc { full, .. } => full,
        PathSpec::Verbatim(s) => s,
    }
}

/// A path into the public package registry's source cache.
pub struct CratesioPath {
    /// The crate directory: name and version.
    pub crate_dir: String,
    /// The path below the crate directory.
    pub rest: String,
    /// The path as given.
    pub full: String,
}

/// A path into a toolchain's standard-library source tree.
pub struct RustStdPath {
    /// The toolchain directory name.
    pub toolchain: String,
    /// The path below the source-tree root.
    pub rest: String,
    /// The path as given.
    pub full: String,
}

/// A remapped compiler-source path.
pub struct RustcPath {
    /// The compiler commit hash.
    pub commit: String,
    /// The path below the commit directory.
    pub rest: String,
    /// The path as given.
    pub full: String,
}

/// A classified source-file path.
pub enum Path {
    Cratesio(CratesioPath),
    RustStd(RustStdPath),
    Rustc(RustcPath),
    Verbatim(String),
}

impl View for Path {
    type V = PathSpec;

    open spec fn view(&self) -> PathSpec {
        match self {
            Path::Cratesio(p) => PathSpec::Cratesio {
                crate_dir: p.crate_dir@,
                rest: p.rest@,
                full: p.full@,
            },
            Path::RustStd(p) => PathSpec::RustStd {
                toolchain: p.toolchain@,
                rest: p.rest@,
                full: p.full@,
            },
            Path::Rustc(p) => PathSpec::Rustc { commit: p.commit@, rest: p.rest@, full: p.full@ },
            Path::Verbatim(s) => PathSpec::Verbatim(s@),
        }
    }
}

/// Splits a path into its nonempty separator-delimited segments.
fn split_path(path: &str) -> (r: Vec<String>)
    ensures
        r@.map_values(|t: String| t@) == segments(path@),
{
    let n = path.unicode_len();
    let mut segs: Vec<String> = Vec::new();
    proof {
        assert(segs@.map_values(|t: String| t@) =~= Seq::<Seq<char>>::empty());
        assert(path@.subrange(0, 0) =~= Seq::<char>::empty());
    }
    let mut start: usize = 0;
    let mut i: usize = 0;
    while i < n
        invariant
            n == path@.len(),
            start <= i <= n,
            split_from(
                path@,
                i as int,
                path@.subrange(start as int, i as int),
                segs@.map_values(|t: String| t@),
            ) == segments(path@),
        decreases n - i,
    {
        let ghost acc0 = segs@.map_values(|t: String| t@);
        let c = path.get_char(i);
        if c == '/' || c == '\\' {
            if i > start {
                let piece = path.substring_char(start, i);
                segs.push(String::from_str(piece));
                proof {
                    assert(segs@.map_values(|t: String| t@) =~= acc0.push(
                        path@.subrange(start as int, i as int),
                    ));
                }
            }
            start = i + 1;
            proof {
                assert(path@.subrange(start as int, start as int) =~= Seq::<char>::empty());
            }
        } else {
            proof {
                assert(path@.subrange(start as int, i as int + 1) =~= path@.subrange(
                    start as int,
                    i as int,
                ).push(path@[i as int]));
            }
        }
        i = i + 1;
    }
    if i > start {
        let ghost acc0 = segs@.map_values(|t: String| t@);
        let piece = path.substring_char(start, i);
        segs.push(String::from_str(piece));
        proof {
            assert(segs@.map_values(|t: String| t@) =~= acc0.push(
                path@.subrange(start as int, i as int),
            ));
        }
    }
    segs
}

/// Does the segment hold exactly this text?
fn seg_is(seg: &String, lit: &str) -> (r: bool)
    ensures
        r == (seg@ == lit@),
{
    let l = String::from_str(lit);
    seg.eq(&l)
}

/// Is this a 40-digit hexadecimal commit hash?
fn is_commit_hash(s: &String) -> (r: bool)
    ensures
        r == (s@.len() == 40 && forall|i: int| 0 <= i < 40 ==> is_hex_digit(#[trigger] s@[i])),
{
    let n = s.as_str().unicode_len();
    if n != 40 {
        return false;
    }
    let mut i: usize = 0;
    while i < 40
        invariant
            s@.len() == 40,
            i <= 40,
            forall|j: int| 0 <= j < i ==> is_hex_digit(#[trigger] s@[j]),
        decreases 40 - i,
    {
        let c = s.as_str().get_char(i);
        if !(('0' <= c && c <= '9') || ('a' <= c && c <= 'f') || ('A' <= c && c <= 'F')) {
            return false;
        }
        i = i + 1;
    }
    true
}

/// The first position where a standard-library source tree opens.
fn find_rust_std(segs: &Vec<String>) -> (r: Option<usize>)
    ensures
        ({
            let sv = segs@.map_values(|t: String| t@);
            match r {
                Some(i) => first_rust_std(sv, 0) == Some(i as int),
                None => first_rust_std(sv, 0) is None,
            }
        }),
{
    let ghost sv = segs@.map_values(|t: String| t@);
    let mut i: usize = 0;
    while i < segs.len()
        invariant
            sv == segs@.map_values(|t: String| t@),
            i <= segs.len(),
            first_rust_std(sv, 0) == first_rust_std(sv, i as int),
        decreases segs.len() - i,
    {
        if segs.len() >= 7 && i < segs.len() - 6 && seg_is(&segs[i], "toolchains") && seg_is(
            &segs[i + 2],
            "lib",
        ) && seg_is(&segs[i + 3], "rustlib") && seg_is(&segs[i + 4], "src") && seg_is(
            &segs[i + 5],
            "rust",
        ) {
            proof {
                assert(rust_std_at(sv, i as int));
            }
            return Some(i);
        }
        proof {
            assert(!rust_std_at(sv, i as int));
        }
        i = i + 1;
    }
    None
}

/// The first position where a registry cache opens.
fn find_cratesio(segs: &Vec<String>) -> (r: Option<usize>)
    ensures
        ({
            let sv = segs@.map_values(|t: String| t@);
            match r {
                Some(i) => first_cratesio(sv, 0) == Some(i as int),
                None => first_cratesio(sv, 0) is None,
            }
        }),
{
    let ghost sv = segs@.map_values(|t: String| t@);
    let mut i: usize = 0;
    while i < segs.len()
        invariant
            sv == segs@.map_values(|t: String| t@),
            i <= segs.len(),
            first_cratesio(sv, 0) == first_cratesio(sv, i as int),
        decreases segs.len() - i,
    {
        if segs.len() >= 5 && i < segs.len() - 4 && seg_is(&segs[i], "registry") && seg_is(
            &segs[i + 1],
            "src",
        ) {
            proof {
                assert(cratesio_at(sv, i as int));
            }
            return Some(i);
        }
        proof {
            assert(!cratesio_at(sv, i as int));
        }
        i = i + 1;
    }
    None
}

/// Joins the segments from position `from` on, with the Unix separator.
fn join_from(segs: &Vec<String>, from: usize) -> (r: String)
    requires
        from <= segs@.len(),
    ensures
        r@ == join_segs(segs@.map_values(|t: String| t@).subrange(from as int, segs@.len() as int)),
{
    let ghost sv = segs@.map_values(|t: String| t@);
    let mut r = String::new();
    proof {
        reveal_strlit("/");
        assert(sv.subrange(from as int, from as int) =~= Seq::<Seq<char>>::empty());
    }
    let mut i: usize = from;
    while i < segs.len()
        invariant
            sv == segs@.map_values(|t: String| t@),
            from <= i <= segs.len(),
            ("/")@ == seq!['/'],
            r@ == join_segs(sv.subrange(from as int, i as int)),
        decreases segs.len() - i,
    {
        let ghost pre = sv.subrange(from as int, i as int);
        if i > from {
            r.append("/");
        }
        r.append(segs[i].as_str());
        proof {
            assert(sv.subrange(from as int, i as int + 1) =~= pre.push(sv[i as int]));
            lemma_join_push(pre, sv[i as int]);
        }
        i = i + 1;
    }
    r
}

/// A position the finder returns opens what it looked for.
proof fn lemma_first_rust_std_some(segs: Seq<Seq<char>>, i: int)
    ensures
        match first_rust_std(segs, i) {
            Some(j) => rust_std_at(segs, j),
            None => true,
        },
    decreases segs.len() - i,
{
    if i < 0 || i >= segs.len() {
    } else if rust_std_at(segs, i) {
    } else {
        lemma_first_rust_std_some(segs, i + 1);
    }
}

/// A position the finder returns opens what it looked for.
proof fn lemma_first_cratesio_some(segs: Seq<Seq<char>>, i: int)
    ensures
        match first_cratesio(segs, i) {
            Some(j) => cratesio_at(segs, j),
            None => true,
        },
    decreases segs.len() - i,
{
    if i < 0 || i >= segs.len() {
    } else if cratesio_at(segs, i) {
    } else {
        lemma_first_cratesio_some(segs, i + 1);
    }
}

impl Path {
    /// Classifies a path: does it point into the public registry's source
    /// cache, a toolchain's standard-library source tree, or the remapped
    /// compiler source tree?  Anything else is kept verbatim.
    pub fn from_std_path(path: &str) -> (r: Path)
        ensures
            r@ == spec_classify(path@),
    {
        let segs = split_path(path);
        let ghost sv = segs@.map_values(|t: String| t@);
        proof {
            lemma_first_rust_std_some(sv, 0);
            lemma_first_cratesio_some(sv, 0);
        }
        if let Some(i) = find_rust_std(&segs) {
            let toolchain = segs[i + 1].clone();
            let rest = join_from(&segs, i + 6);
            return Path::RustStd(RustStdPath { toolchain, rest, full: String::from_str(path) });
        }
        if segs.len() >= 3 && seg_is(&segs[0], "rustc") && is_commit_hash(&segs[1]) {
            let commit = segs[1].clone();
            let rest = join_from(&segs, 2);
            return Path::Rustc(RustcPath { commit, rest, full: String::from_str(path) });
        }
        if let Some(i) = find_cratesio(&segs) {
            let crate_dir = segs[i + 3].clone();
            let rest = join_from(&segs, i + 4);
            return Path::Cratesio(CratesioPath { crate_dir, rest, full: String::from_str(path) });
        }
        Path::Verbatim(String::from_str(path))
    }

    /// Renders the path shortened: registry and toolchain boilerplate is
    /// folded into a bracketed marker before the interesting remainder.
    pub fn format_short(&self) -> (r: String)
        ensures
            r@ == spec_format_short(self@),
    {
        match self {
            Path::Cratesio(p) => {
                let mut r = String::from_str("[");
                r.append(p.crate_dir.as_str());
                r.append("]/");
                r.append(p.rest.as_str());
                r
            },
            Path::RustStd(p) => {
                let mut r = String::from_str("[rust-std]/");
                r.append(p.rest.as_str());
                r
            },
            Path::Rustc(p) => {
                let mut r = String::from_str("[rust]/");
                r.append(p.rest.as_str());
                r
            },
            Path::Verbatim(s) => s.clone(),
        }
    }

    /// Renders the path at full length, as it was given; any visual
    /// emphasis of the classified part is left to the caller.
    pub fn format_highlight(&self) -> (r: String)
        ensures
            r@ == spec_format_full(self@),
    {
        match self {
            Path::Cratesio(p) => p.full.clone(),
            Path::RustStd(p) => p.full.clone(),
            Path::Rustc(p) => p.full.clone(),
            Path::Verbatim(s) => s.clone(),
        }
    }
}

} // verus!
