//! Shared utilities: the application configuration value, directory path
//! helpers, and the filename and path validators that fend off traversal.
//!
//! The helpers are pure: the surrounding application reads the
//! configuration file and probes the filesystem, and hands the plain values
//! in.

use crate::crypto::push_char;
use crate::text::{
    dec_str, lemma_dec_str_injective, lemma_dec_str_len, lemma_pigeonhole_free, usize_to_dec,
};
use vstd::prelude::*;
use vstd::string::StringExecFns;

verus! {

/// Application configuration stored in the user's config directory.
#[derive(Debug, Clone)]
pub struct AppConfig {
    /// A custom notes directory, if the user chose one.
    pub notes_directory: Option<String>,
}

impl AppConfig {
    /// The configuration with nothing chosen.
    pub fn new() -> (r: AppConfig)
        ensures
            r.notes_directory is None,
    {
        AppConfig { notes_directory: None }
    }
}

/// The notes directory the configuration selects: the custom directory when
/// one is configured and exists (the caller probes for `custom_exists`),
/// else the default.
pub fn get_notes_dir(config: &AppConfig, custom_exists: bool, default_dir: String) -> (r: String)
    ensures
        r@ == match config.notes_directory {
            Some(d) => if custom_exists {
                d@
            } else {
                default_dir@
            },
            None => default_dir@,
        },
{
    match &config.notes_directory {
        Some(d) => if custom_exists {
            d.clone()
        } else {
            default_dir
        },
        None => default_dir,
    }
}

/// The daily notes directory under the notes directory.
pub fn get_daily_dir(notes_dir: &str) -> (r: String)
    ensures
        r@ == notes_dir@ + "/daily"@,
{
    let mut s = notes_dir.to_owned();
    s.append("/daily");
    s
}

/// The standalone notes directory under the notes directory.
pub fn get_standalone_dir(notes_dir: &str) -> (r: String)
    ensures
        r@ == notes_dir@ + "/notes"@,
{
    let mut s = notes_dir.to_owned();
    s.append("/notes");
    s
}

/// The weekly notes directory under the notes directory.
pub fn get_weekly_dir(notes_dir: &str) -> (r: String)
    ensures
        r@ == notes_dir@ + "/weekly"@,
{
    let mut s = notes_dir.to_owned();
    s.append("/weekly");
    s
}

/// The trash directory under the notes directory.
pub fn get_trash_dir(notes_dir: &str) -> (r: String)
    ensures
        r@ == notes_dir@ + "/.trash"@,
{
    let mut s = notes_dir.to_owned();
    s.append("/.trash");
    s
}

/// The templates directory under the notes directory.
pub fn get_templates_dir(notes_dir: &str) -> (r: String)
    ensures
        r@ == notes_dir@ + "/templates"@,
{
    let mut s = notes_dir.to_owned();
    s.append("/templates");
    s
}

/// The views of a list of names.
pub open spec fn name_views(s: Seq<String>) -> Seq<Seq<char>> {
    s.map_values(|p: String| p@)
}

/// The `k`-th candidate filename: `base.ext` first, then `base (k).ext`.
pub open spec fn numbered_filename(base: Seq<char>, ext: Seq<char>, k: nat) -> Seq<char> {
    if k == 0 {
        base + seq!['.'] + ext
    } else {
        base + seq![' ', '('] + dec_str(k) + seq![')', '.'] + ext
    }
}

/// The `k`-th candidate folder name: `base` first, then `base (k)`.
pub open spec fn numbered_folder(base: Seq<char>, k: nat) -> Seq<char> {
    if k == 0 {
        base
    } else {
        base + seq![' ', '('] + dec_str(k) + seq![')']
    }
}

proof fn lemma_numbered_filename_distinct(base: Seq<char>, ext: Seq<char>, k1: nat, k2: nat)
    requires
        k1 != k2,
    ensures
        numbered_filename(base, ext, k1) != numbered_filename(base, ext, k2),
{
    lemma_dec_str_len(k1);
    lemma_dec_str_len(k2);
    let c1 = numbered_filename(base, ext, k1);
    let c2 = numbered_filename(base, ext, k2);
    if k1 == 0 || k2 == 0 {
        assert(c1.len() != c2.len());
    } else {
        let d1 = dec_str(k1).len() as int;
        let d2 = dec_str(k2).len() as int;
        if d1 != d2 {
            assert(c1.len() != c2.len());
        } else {
            lemma_dec_str_injective(k1, k2);
            if c1 == c2 {
                let b = base.len() as int;
                assert(c1.subrange(b + 2, b + 2 + d1) =~= dec_str(k1));
                assert(c2.subrange(b + 2, b + 2 + d2) =~= dec_str(k2));
            }
        }
    }
}

proof fn lemma_numbered_folder_distinct(base: Seq<char>, k1: nat, k2: nat)
    requires
        k1 != k2,
    ensures
        numbered_folder(base, k1) != numbered_folder(base, k2),
{
    lemma_dec_str_len(k1);
    lemma_dec_str_len(k2);
    let c1 = numbered_folder(base, k1);
    let c2 = numbered_folder(base, k2);
    if k1 == 0 || k2 == 0 {
        assert(c1.len() != c2.len());
    } else {
        let d1 = dec_str(k1).len() as int;
        let d2 = dec_str(k2).len() as int;
        if d1 != d2 {
            assert(c1.len() != c2.len());
        } else {
            lemma_dec_str_injective(k1, k2);
            if c1 == c2 {
                let b = base.len() as int;
                assert(c1.subrange(b + 2, b + 2 + d1) =~= dec_str(k1));
                assert(c2.subrange(b + 2, b + 2 + d2) =~= dec_str(k2));
            }
        }
    }
}

/// Build the `k`-th candidate filename.
fn make_filename(base_name: &str, extension: &str, k: usize) -> (r: String)
    ensures
        r@ == numbered_filename(base_name@, extension@, k as nat),
{
    let mut s = base_name.to_owned();
    if k == 0 {
        push_char(&mut s, '.');
        s.append(extension);
        proof {
            assert(s@ =~= base_name@ + seq!['.'] + extension@);
        }
    } else {
        push_char(&mut s, ' ');
        push_char(&mut s, '(');
        let d = usize_to_dec(k);
        s.append(d.as_str());
        push_char(&mut s, ')');
        push_char(&mut s, '.');
        s.append(extension);
        proof {
            assert(s@ =~= base_name@ + seq![' ', '('] + dec_str(k as nat) + seq![')', '.']
                + extension@);
        }
    }
    s
}

/// Build the `k`-th candidate folder name.
fn make_folder_name(base_name: &str, k: usize) -> (r: String)
    ensures
        r@ == numbered_folder(base_name@, k as nat),
{
    let mut s = base_name.to_owned();
    if k > 0 {
        push_char(&mut s, ' ');
        push_char(&mut s, '(');
        let d = usize_to_dec(k);
        s.append(d.as_str());
        push_char(&mut s, ')');
        proof {
            assert(s@ =~= base_name@ + seq![' ', '('] + dec_str(k as nat) + seq![')']);
        }
    }
    s
}

/// Whether a name occurs in the list.
pub(crate) fn contains_name(taken: &Vec<String>, name: &String) -> (r: bool)
    ensures
        r == name_views(taken@).contains(name@),
{
    let n = taken.len();
    let mut i: usize = 0;
    while i < n
        invariant
            n == taken@.len(),
            i <= n,
            forall|j: int| 0 <= j < i ==> name_views(taken@)[j] != name@,
        decreases n - i,
    {
        if taken[i] == *name {
            assert(name_views(taken@)[i as int] == name@);
            return true;
        }
        i += 1;
    }
    false
}

/// The first of `base.ext`, `base (1).ext`, `base (2).ext`, ... that does
/// not occur among the taken names. The caller lists the directory and
/// passes the names present.
pub fn generate_unique_filename(taken: &Vec<String>, base_name: &str, extension: &str) -> (r:
    String)
    requires
        taken@.len() < usize::MAX,
    ensures
        exists|k: nat|
            r@ == numbered_filename(base_name@, extension@, k) && !name_views(taken@).contains(
                r@,
            ) && forall|j: nat|
                j < k ==> name_views(taken@).contains(
                    #[trigger] numbered_filename(base_name@, extension@, j),
                ),
{
    let n = taken.len();
    let mut k: usize = 0;
    while k <= n
        invariant
            n == taken@.len(),
            n < usize::MAX,
            k <= n + 1,
            forall|j: nat|
                j < k ==> name_views(taken@).contains(
                    #[trigger] numbered_filename(base_name@, extension@, j),
                ),
        decreases n + 1 - k,
    {
        let cand = make_filename(base_name, extension, k);
        if !contains_name(taken, &cand) {
            return cand;
        }
        k += 1;
    }
    proof {
        let cands = Seq::new((n + 1) as nat, |i: int| numbered_filename(base_name@, extension@, i as nat));
        assert forall|i: int, j: int| 0 <= i < j < cands.len() implies cands[i] != cands[j] by {
            lemma_numbered_filename_distinct(base_name@, extension@, i as nat, j as nat);
        }
        lemma_pigeonhole_free(cands, name_views(taken@));
        let i = choose|i: int|
            0 <= i < cands.len() && !name_views(taken@).contains(#[trigger] cands[i]);
        assert(name_views(taken@).contains(numbered_filename(base_name@, extension@, i as nat)));
        assert(false);
    }
    // Unreachable: among the n + 1 pairwise-distinct candidates, one is
    // always free of the n taken names.
    make_filename(base_name, extension, 0)
}

/// The first of `base`, `base (1)`, `base (2)`, ... that does not occur
/// among the taken names. The caller lists the parent directory and passes
/// the names present.
pub fn generate_unique_folder_name(taken: &Vec<String>, base_name: &str) -> (r: String)
    requires
        taken@.len() < usize::MAX,
    ensures
        exists|k: nat|
            r@ == numbered_folder(base_name@, k) && !name_views(taken@).contains(r@) && forall|
                j: nat,
            |
                j < k ==> name_views(taken@).contains(#[trigger] numbered_folder(base_name@, j)),
{
    let n = taken.len();
    let mut k: usize = 0;
    while k <= n
        invariant
            n == taken@.len(),
            n < usize::MAX,
            k <= n + 1,
            forall|j: nat|
                j < k ==> name_views(taken@).contains(#[trigger] numbered_folder(base_name@, j)),
        decreases n + 1 - k,
    {
        let cand = make_folder_name(base_name, k);
        if !contains_name(taken, &cand) {
            return cand;
        }
        k += 1;
    }
    proof {
        let cands = Seq::new((n + 1) as nat, |i: int| numbered_folder(base_name@, i as nat));
        assert forall|i: int, j: int| 0 <= i < j < cands.len() implies cands[i] != cands[j] by {
            lemma_numbered_folder_distinct(base_name@, i as nat, j as nat);
        }
        lemma_pigeonhole_free(cands, name_views(taken@));
        let i = choose|i: int|
            0 <= i < cands.len() && !name_views(taken@).contains(#[trigger] cands[i]);
        assert(name_views(taken@).contains(numbered_folder(base_name@, i as nat)));
        assert(false);
    }
    // Unreachable: among the n + 1 pairwise-distinct candidates, one is
    // always free of the n taken names.
    make_folder_name(base_name, 0)
}

/// Whether the character sequence contains ".." anywhere.
pub open spec fn has_dot_dot(s: Seq<char>) -> bool {
    exists|j: int| 0 <= j && j + 1 < s.len() && #[trigger] s[j] == '.' && s[j + 1] == '.'
}

/// Validate a filename to prevent path traversal: it must be non-empty and
/// contain no "..", no '/' and no '\'.
pub fn is_valid_filename(filename: &str) -> (r: bool)
    ensures
        r == (filename@.len() > 0 && !has_dot_dot(filename@) && !filename@.contains('/')
            && !filename@.contains('\\')),
{
    let n = filename.unicode_len();
    if n == 0 {
        return false;
    }
    let mut i: usize = 0;
    let mut dots: bool = false;
    while i < n
        invariant
            n == filename@.len(),
            i <= n,
            forall|j: int| 0 <= j < i ==> filename@[j] != '/' && filename@[j] != '\\',
            dots == (exists|j: int|
                0 <= j && j + 1 < n && j < i && #[trigger] filename@[j] == '.' && filename@[j
                    + 1] == '.'),
        decreases n - i,
    {
        let c = filename.get_char(i);
        if c == '/' || c == '\\' {
            assert(filename@.contains(c));
            return false;
        }
        if i + 1 < n && c == '.' && filename.get_char(i + 1) == '.' {
            dots = true;
        }
        i += 1;
    }
    assert(!filename@.contains('/'));
    assert(!filename@.contains('\\'));
    !dots
}

/// Validate a path to prevent traversal: it must be non-empty and contain
/// no ".." and no '\'; forward slashes are allowed.
pub fn is_valid_path(path: &str) -> (r: bool)
    ensures
        r == (path@.len() > 0 && !has_dot_dot(path@) && !path@.contains('\\')),
{
    let n = path.unicode_len();
    if n == 0 {
        return false;
    }
    let mut i: usize = 0;
    let mut dots: bool = false;
    while i < n
        invariant
            n == path@.len(),
            i <= n,
            forall|j: int| 0 <= j < i ==> path@[j] != '\\',
            dots == (exists|j: int|
                0 <= j && j + 1 < n && j < i && #[trigger] path@[j] == '.' && path@[j + 1]
                    == '.'),
        decreases n - i,
    {
        let c = path.get_char(i);
        if c == '\\' {
            assert(path@.contains(c));
            return false;
        }
        if i + 1 < n && c == '.' && path.get_char(i + 1) == '.' {
            dots = true;
        }
        i += 1;
    }
    assert(!path@.contains('\\'));
    !dots
}

} // verus!
