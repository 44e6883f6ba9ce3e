use vstd::prelude::*;
use crate::text::{
    chars_of, contains_char, decimal, lemma_lines_step, lemma_words_empty,
    lemma_words_range_skip, lemma_words_range_word, lines, push_decimal, range_eq, skip_whitespace,
    str_contains_char, str_eq, string_of_range, word_end, words,
};

verus! {

/// The GitHub repository that publishes the releases.
pub const GITHUB_REPO: &'static str = "Mosuzzzz/mc-cli";

// ---------------------------------------------------------------------
// Platforms
// ---------------------------------------------------------------------

/// The name of the pre-built binary that the releases carry for an OS and an architecture
/// (as `std::env::consts` name them).
pub open spec fn platform_binary(os: Seq<char>, arch: Seq<char>) -> Option<Seq<char>> {
    if os == "macos"@ && arch == "x86_64"@ {
        Some("mc-cli-x86_64-apple-darwin"@)
    } else if os == "macos"@ && arch == "aarch64"@ {
        Some("mc-cli-aarch64-apple-darwin"@)
    } else if os == "linux"@ && arch == "x86_64"@ {
        Some("mc-cli-x86_64-unknown-linux-gnu"@)
    } else if os == "linux"@ && arch == "aarch64"@ {
        Some("mc-cli-aarch64-unknown-linux-gnu"@)
    } else if os == "windows"@ && arch == "x86_64"@ {
        Some("mc-cli-x86_64-pc-windows-msvc.exe"@)
    } else {
        None
    }
}

/// The release binary for the platform, `None` where no pre-built binary is published.
pub fn platform_binary_name(os: &str, arch: &str) -> (r: Option<&'static str>)
    ensures
        match platform_binary(os@, arch@) {
            Some(name) => r matches Some(s) && s@ == name,
            None => r is None,
        },
{
    let mac = str_eq(os, "macos");
    let linux = str_eq(os, "linux");
    let windows = str_eq(os, "windows");
    let x86 = str_eq(arch, "x86_64");
    let arm = str_eq(arch, "aarch64");
    if mac && x86 {
        Some("mc-cli-x86_64-apple-darwin")
    } else if mac && arm {
        Some("mc-cli-aarch64-apple-darwin")
    } else if linux && x86 {
        Some("mc-cli-x86_64-unknown-linux-gnu")
    } else if linux && arm {
        Some("mc-cli-aarch64-unknown-linux-gnu")
    } else if windows && x86 {
        Some("mc-cli-x86_64-pc-windows-msvc.exe")
    } else {
        None
    }
}

// ---------------------------------------------------------------------
// Release addresses
// ---------------------------------------------------------------------

/// The GitHub API endpoint that describes the latest release.
pub fn latest_release_api_url() -> (url: String)
    ensures
        url@ == "https://api.github.com/repos/"@ + GITHUB_REPO@ + "/releases/latest"@,
{
    let mut url = String::from_str("https://api.github.com/repos/");
    url.append(GITHUB_REPO);
    url.append("/releases/latest");
    url
}

/// Where the files of release `tag` are downloaded from.
pub fn release_download_base(tag: &str) -> (url: String)
    ensures
        url@ == "https://github.com/"@ + GITHUB_REPO@ + "/releases/download/"@ + tag@,
{
    let mut url = String::from_str("https://github.com/");
    url.append(GITHUB_REPO);
    url.append("/releases/download/");
    url.append(tag);
    url
}

/// The checksum list of a release whose files lie under `base`.
pub fn checksums_url(base: &str) -> (url: String)
    ensures
        url@ == base@ + "/sha256sums.txt"@,
{
    let mut url = String::from_str(base);
    url.append("/sha256sums.txt");
    url
}

/// The file `name` of a release whose files lie under `base`.
pub fn release_file_url(base: &str, name: &str) -> (url: String)
    ensures
        url@ == base@ + "/"@ + name@,
{
    let mut url = String::from_str(base);
    url.append("/");
    url.append(name);
    url
}

/// Whether the latest release tag is the one of the installed version.
pub fn is_up_to_date(latest_tag: &str, installed_version: &str) -> (r: bool)
    ensures
        r == (latest_tag@ == "v"@ + installed_version@),
{
    let mut installed = String::from_str("v");
    installed.append(installed_version);
    str_eq(latest_tag, installed.as_str())
}

/// The name of the file that a downloaded binary is first written to.
pub fn update_temp_file_name(pid: u32) -> (name: String)
    ensures
        name@ == "mc-cli-update-"@ + decimal(pid as nat),
{
    let mut name = String::from_str("mc-cli-update-");
    push_decimal(&mut name, pid as u64);
    name
}

/// The arguments of `cargo install` that build release `tag` into `root`.
pub fn cargo_install_args(tag: &str, root: &str) -> (args: Vec<String>)
    ensures
        args@.len() == 8,
        args@[0]@ == "install"@,
        args@[1]@ == "--git"@,
        args@[2]@ == "https://github.com/"@ + GITHUB_REPO@ + ".git"@,
        args@[3]@ == "--tag"@,
        args@[4]@ == tag@,
        args@[5]@ == "--locked"@,
        args@[6]@ == "--root"@,
        args@[7]@ == root@,
{
    let mut git = String::from_str("https://github.com/");
    git.append(GITHUB_REPO);
    git.append(".git");
    let mut args: Vec<String> = Vec::new();
    args.push(String::from_str("install"));
    args.push(String::from_str("--git"));
    args.push(git);
    args.push(String::from_str("--tag"));
    args.push(String::from_str(tag));
    args.push(String::from_str("--locked"));
    args.push(String::from_str("--root"));
    args.push(String::from_str(root));
    args
}

/// Why installing the pre-built binary of a release failed.
#[derive(PartialEq, Eq, Structural, Debug, Clone, Copy)]
pub enum BinaryUpdateFailure {
    /// No pre-built binary is published for this platform.
    NoBinaryForPlatform,
    /// The checksum list does not name the binary.
    NotInChecksums,
    /// The checksum list or the binary could not be fetched.
    FetchFailed,
    /// The binary's SHA-256 is not the published one.
    IntegrityCheckFailed,
    /// The verified binary could not be put in place.
    InstallFailed,
}

/// Whether a failure means that no pre-built binary is available, in which case the
/// update falls back to building the release with `cargo install`.
pub open spec fn binary_unavailable(f: BinaryUpdateFailure) -> bool {
    f == BinaryUpdateFailure::NoBinaryForPlatform || f == BinaryUpdateFailure::NotInChecksums
        || f == BinaryUpdateFailure::FetchFailed
}

/// Whether the update falls back to `cargo install` after `failure`: only where no
/// pre-built binary is available. A binary that fails its integrity check, or that cannot
/// be installed, ends the update with that error.
pub fn falls_back_to_cargo(failure: BinaryUpdateFailure) -> (r: bool)
    ensures
        r == binary_unavailable(failure),
{
    match failure {
        BinaryUpdateFailure::NoBinaryForPlatform => true,
        BinaryUpdateFailure::NotInChecksums => true,
        BinaryUpdateFailure::FetchFailed => true,
        BinaryUpdateFailure::IntegrityCheckFailed => false,
        BinaryUpdateFailure::InstallFailed => false,
    }
}

/// A binary that fails its integrity check is never replaced by a build of the release.
pub proof fn lemma_integrity_failure_is_final()
    ensures
        !binary_unavailable(BinaryUpdateFailure::IntegrityCheckFailed),
{
}

// ---------------------------------------------------------------------
// The checksum list: lines of `<hash> <file name>`
// ---------------------------------------------------------------------

/// The hash that one line of the list gives for `name`.
pub open spec fn hash_on_line(line: Seq<char>, name: Seq<char>) -> Option<Seq<char>> {
    let w = words(line);
    if w.len() >= 2 && w[1] == name {
        Some(w[0])
    } else {
        None
    }
}

/// The hash that the first line naming `name` gives.
pub open spec fn hash_in_lines(ls: Seq<Seq<char>>, name: Seq<char>) -> Option<Seq<char>>
    decreases ls.len(),
{
    if ls.len() == 0 {
        None
    } else {
        match hash_on_line(ls[0], name) {
            Some(h) => Some(h),
            None => hash_in_lines(ls.drop_first(), name),
        }
    }
}

/// The hash that a checksum list gives for the file `name`.
pub open spec fn listed_hash(text: Seq<char>, name: Seq<char>) -> Option<Seq<char>> {
    hash_in_lines(lines(text), name)
}

proof fn lemma_hash_in_lines_earliest(ls: Seq<Seq<char>>, name: Seq<char>, k: int, h: Seq<char>)
    requires
        0 <= k < ls.len(),
        hash_on_line(ls[k], name) == Some(h),
        forall|j: int| 0 <= j < k ==> hash_on_line(#[trigger] ls[j], name) is None,
    ensures
        hash_in_lines(ls, name) == Some(h),
    decreases k,
{
    if k > 0 {
        let t = ls.drop_first();
        assert forall|j: int| 0 <= j < k - 1 implies hash_on_line(#[trigger] t[j], name) is None by {
            assert(t[j] == ls[j + 1]);
        }
        assert(t[k - 1] == ls[k]);
        lemma_hash_in_lines_earliest(t, name, k - 1, h);
    }
}

/// The first line that names the file decides: when line `k` of the list reads
/// `<h> <name> ...` and no earlier line names the file second, `h` is the expected hash,
/// whatever later lines say.
pub proof fn lemma_listed_hash_first_line_wins(text: Seq<char>, name: Seq<char>, k: int, h: Seq<char>)
    requires
        0 <= k < lines(text).len(),
        words(lines(text)[k]).len() >= 2,
        words(lines(text)[k])[0] == h,
        words(lines(text)[k])[1] == name,
        forall|j: int|
            0 <= j < k ==> !(words(#[trigger] lines(text)[j]).len() >= 2 && words(lines(text)[j])[1]
                == name),
    ensures
        listed_hash(text, name) == Some(h),
{
    let ls = lines(text);
    assert forall|j: int| 0 <= j < k implies hash_on_line(#[trigger] ls[j], name) is None by {}
    lemma_hash_in_lines_earliest(ls, name, k, h);
}

fn find_newline(v: &Vec<char>, i: usize) -> (j: usize)
    requires
        i <= v@.len(),
    ensures
        i <= j <= v@.len(),
        forall|k: int| i <= k < j ==> #[trigger] v@[k] != '\n',
        j < v@.len() ==> v@[j as int] == '\n',
{
    let mut j = i;
    while j < v.len() && v[j] != '\n'
        invariant
            i <= j <= v@.len(),
            forall|k: int| i <= k < j ==> #[trigger] v@[k] != '\n',
        decreases v@.len() - j,
    {
        j = j + 1;
    }
    j
}

/// The hash that the line `v[lo..hi]` gives for `name`.
fn hash_on_line_range(v: &Vec<char>, lo: usize, hi: usize, name: &Vec<char>) -> (r: Option<
    String,
>)
    requires
        lo <= hi <= v@.len(),
    ensures
        match hash_on_line(v@.subrange(lo as int, hi as int), name@) {
            Some(h) => r matches Some(s) && s@ == h,
            None => r is None,
        },
{
    let a = skip_whitespace(v, lo, hi);
    proof {
        lemma_words_range_skip(v@, lo as int, a as int, hi as int);
    }
    if a == hi {
        proof {
            lemma_words_empty(v@, hi as int);
        }
        return None;
    }
    let e0 = word_end(v, a, hi);
    let b = skip_whitespace(v, e0, hi);
    proof {
        lemma_words_range_word(v@, a as int, e0 as int, hi as int);
        lemma_words_range_skip(v@, e0 as int, b as int, hi as int);
    }
    if b == hi {
        proof {
            lemma_words_empty(v@, hi as int);
            assert(words(v@.subrange(lo as int, hi as int)).len() == 1);
        }
        return None;
    }
    let e1 = word_end(v, b, hi);
    proof {
        lemma_words_range_word(v@, b as int, e1 as int, hi as int);
        let w = words(v@.subrange(lo as int, hi as int));
        assert(w.len() >= 2);
        assert(w[0] == v@.subrange(a as int, e0 as int));
        assert(w[1] == v@.subrange(b as int, e1 as int));
    }
    if range_eq(v, b, e1, name) {
        Some(string_of_range(v, a, e0))
    } else {
        None
    }
}

/// The expected hash of the file `bin_name` in a `sha256sums.txt` list: the first word of
/// the first line whose second word is `bin_name`.
pub fn expected_hash_for(checksums: &str, bin_name: &str) -> (r: Option<String>)
    ensures
        match listed_hash(checksums@, bin_name@) {
            Some(h) => r matches Some(s) && s@ == h,
            None => r is None,
        },
{
    let v = chars_of(checksums);
    let name = chars_of(bin_name);
    let n = v.len();
    let mut i: usize = 0;
    assert(v@.skip(0) =~= v@);
    while i < n
        invariant
            v@ == checksums@,
            name@ == bin_name@,
            n == v@.len(),
            i <= n,
            listed_hash(checksums@, bin_name@) == hash_in_lines(lines(v@.skip(i as int)), name@),
        decreases n - i,
    {
        let j = find_newline(&v, i);
        proof {
            lemma_lines_step(v@, i as int, j as int);
            let ls = lines(v@.skip(i as int));
            assert(ls[0] == v@.subrange(i as int, j as int));
            if j < n {
                assert(ls.drop_first() =~= lines(v@.skip(j + 1)));
            } else {
                assert(ls.drop_first().len() == 0);
            }
        }
        let h = hash_on_line_range(&v, i, j, &name);
        if h.is_some() {
            return h;
        }
        if j == n {
            proof {
                let ls = lines(v@.skip(i as int));
                assert(hash_in_lines(ls.drop_first(), name@) is None);
            }
            return None;
        }
        i = j + 1;
    }
    assert(v@.skip(n as int).len() == 0);
    None
}

// ---------------------------------------------------------------------
// Replacing the binary on Windows
// ---------------------------------------------------------------------

/// The first of `"`, `&`, `|`, `<`, `>` that occurs in `src` or `dst`: such a character
/// would let a path break out of the batch script that moves files.
pub open spec fn first_shell_special(src: Seq<char>, dst: Seq<char>) -> Option<char> {
    if contains_char(src, '"') || contains_char(dst, '"') {
        Some('"')
    } else if contains_char(src, '&') || contains_char(dst, '&') {
        Some('&')
    } else if contains_char(src, '|') || contains_char(dst, '|') {
        Some('|')
    } else if contains_char(src, '<') || contains_char(dst, '<') {
        Some('<')
    } else if contains_char(src, '>') || contains_char(dst, '>') {
        Some('>')
    } else {
        None
    }
}

/// Finds a character in either path that is special to the batch shell.
pub fn shell_special_in(src: &str, dst: &str) -> (r: Option<char>)
    ensures
        r == first_shell_special(src@, dst@),
{
    if str_contains_char(src, '"') || str_contains_char(dst, '"') {
        Some('"')
    } else if str_contains_char(src, '&') || str_contains_char(dst, '&') {
        Some('&')
    } else if str_contains_char(src, '|') || str_contains_char(dst, '|') {
        Some('|')
    } else if str_contains_char(src, '<') || str_contains_char(dst, '<') {
        Some('<')
    } else if str_contains_char(src, '>') || str_contains_char(dst, '>') {
        Some('>')
    } else {
        None
    }
}

/// The part of a batch script that waits until the process `pid` has ended.
pub open spec fn wait_for_exit_script(pid: u32) -> Seq<char> {
    "@echo off\r\n:wait\r\ntasklist /FI \"PID eq "@ + decimal(pid as nat) + "\" 2>NUL | find \""@
        + decimal(pid as nat) + "\" >NUL\r\nif not errorlevel 1 (\r\ntimeout /t 1 /nobreak >NUL\r\ngoto wait\r\n)\r\n"@
}

fn push_wait_for_exit(s: &mut String, pid: u32)
    ensures
        final(s)@ == old(s)@ + wait_for_exit_script(pid),
{
    s.append("@echo off\r\n:wait\r\ntasklist /FI \"PID eq ");
    push_decimal(s, pid as u64);
    s.append("\" 2>NUL | find \"");
    push_decimal(s, pid as u64);
    s.append("\" >NUL\r\nif not errorlevel 1 (\r\ntimeout /t 1 /nobreak >NUL\r\ngoto wait\r\n)\r\n");
    assert(s@ =~= old(s)@ + wait_for_exit_script(pid));
}

/// The batch script that, once process `pid` has ended, moves the new binary `src` over
/// `dst`, reports the update to `tag` and deletes itself.
pub fn replace_script(pid: u32, src: &str, dst: &str, tag: &str) -> (s: String)
    ensures
        s@ == wait_for_exit_script(pid) + "move /y \""@ + src@ + "\" \""@ + dst@ + "\"\r\necho mc-cli updated to "@
            + tag@ + " successfully!\r\ndel \"%~f0\"\r\n"@,
{
    let mut s = String::new();
    push_wait_for_exit(&mut s, pid);
    s.append("move /y \"");
    s.append(src);
    s.append("\" \"");
    s.append(dst);
    s.append("\"\r\necho mc-cli updated to ");
    s.append(tag);
    s.append(" successfully!\r\ndel \"%~f0\"\r\n");
    assert(s@ =~= wait_for_exit_script(pid) + "move /y \""@ + src@ + "\" \""@ + dst@
        + "\"\r\necho mc-cli updated to "@ + tag@ + " successfully!\r\ndel \"%~f0\"\r\n"@);
    s
}

/// The batch script that, once process `pid` has ended, deletes the binary `exe` and then
/// itself.
pub fn uninstall_script(pid: u32, exe: &str) -> (s: String)
    ensures
        s@ == wait_for_exit_script(pid) + "del /f /q \""@ + exe@
            + "\"\r\necho mc-cli has been uninstalled successfully.\r\ndel \"%~f0\"\r\n"@,
{
    let mut s = String::new();
    push_wait_for_exit(&mut s, pid);
    s.append("del /f /q \"");
    s.append(exe);
    s.append("\"\r\necho mc-cli has been uninstalled successfully.\r\ndel \"%~f0\"\r\n");
    assert(s@ =~= wait_for_exit_script(pid) + "del /f /q \""@ + exe@
        + "\"\r\necho mc-cli has been uninstalled successfully.\r\ndel \"%~f0\"\r\n"@);
    s
}

} // verus!
