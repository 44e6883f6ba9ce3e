use vstd::prelude::*;
use crate::text::{
    chars_of, contains_seq, decimal, occurs_at, push_decimal, remove_all, remove_all_chars,
};

verus! {

/// What `eula.txt` holds once the EULA is accepted.
pub const EULA_CONTENT: &'static str = "eula=true\n";

// ---------------------------------------------------------------------
// Server jars
// ---------------------------------------------------------------------

/// The name under which the jar of `version` from `provider` is cached.
pub open spec fn jar_name(provider: Seq<char>, version: Seq<char>) -> Seq<char> {
    provider + "-"@ + version + ".jar"@
}

/// A file name whose extension (the text after its last '.', where that '.' is not its
/// first character) is `jar`.
pub open spec fn is_jar_name(name: Seq<char>) -> bool {
    name.len() >= 5 && name.subrange(name.len() - 4, name.len() as int) == ".jar"@
}

/// The version that a cached jar name gives: its stem with every `<provider>-` removed.
pub open spec fn version_of_jar(provider: Seq<char>, name: Seq<char>) -> Seq<char> {
    remove_all(name.take(name.len() - 4), provider + "-"@)
}

/// `<provider>-<version>.jar`.
pub fn jar_file_name(provider: &str, version: &str) -> (name: String)
    ensures
        name@ == jar_name(provider@, version@),
{
    let mut name = String::from_str(provider);
    name.append("-");
    name.append(version);
    name.append(".jar");
    name
}

/// Whether a file name has the extension `jar`.
pub fn is_jar_file_name(name: &str) -> (r: bool)
    ensures
        r == is_jar_name(name@),
{
    let v = chars_of(name);
    let n = v.len();
    if n < 5 {
        return false;
    }
    let r = v[n - 4] == '.' && v[n - 3] == 'j' && v[n - 2] == 'a' && v[n - 1] == 'r';
    proof {
        reveal_strlit(".jar");
        let t = v@.subrange(n - 4, n as int);
        if r {
            assert(t =~= ".jar"@);
        } else {
            if t == ".jar"@ {
                assert(t[0] == v@[n - 4]);
                assert(t[1] == v@[n - 3]);
                assert(t[2] == v@[n - 2]);
                assert(t[3] == v@[n - 1]);
            }
        }
    }
    r
}

/// The version that a cached jar stands for, taken from its file name; `None` for a file
/// that is no jar.
pub fn cached_jar_version(provider: &str, file_name: &str) -> (r: Option<String>)
    ensures
        is_jar_name(file_name@) ==> (r matches Some(s) && s@ == version_of_jar(
            provider@,
            file_name@,
        )),
        !is_jar_name(file_name@) ==> r is None,
{
    if !is_jar_file_name(file_name) {
        return None;
    }
    let v = chars_of(file_name);
    let n = v.len();
    let mut stem: Vec<char> = Vec::new();
    let mut i: usize = 0;
    while i < n - 4
        invariant
            v@ == file_name@,
            n == v@.len(),
            n >= 5,
            i <= n - 4,
            stem@ == v@.take(i as int),
        decreases n - 4 - i,
    {
        stem.push(v[i]);
        assert(stem@ =~= v@.take(i + 1));
        i = i + 1;
    }
    let mut pat_s = String::from_str(provider);
    pat_s.append("-");
    let pat = chars_of(pat_s.as_str());
    assert(pat@.len() > 0) by {
        reveal_strlit("-");
    }
    Some(remove_all_chars(&stem, &pat))
}

proof fn lemma_remove_all_absent(s: Seq<char>, p: Seq<char>)
    requires
        p.len() > 0,
        !contains_seq(s, p),
    ensures
        remove_all(s, p) == s,
    decreases s.len(),
{
    if s.len() >= p.len() {
        if s.take(p.len() as int) == p {
            assert(occurs_at(s, p, 0));
        }
        let t = s.drop_first();
        assert forall|i: int| !occurs_at(t, p, i) by {
            if occurs_at(t, p, i) {
                assert(s.subrange(i + 1, i + 1 + p.len()) =~= t.subrange(i, i + p.len()));
                assert(occurs_at(s, p, i + 1));
            }
        }
        lemma_remove_all_absent(t, p);
        assert(seq![s[0]] + t =~= s);
    }
}

/// Reading a cached jar's name back gives the version it was cached under, as long as the
/// version does not itself hold `<provider>-`.
pub proof fn lemma_jar_name_round_trip(provider: Seq<char>, version: Seq<char>)
    requires
        !contains_seq(version, provider + "-"@),
    ensures
        is_jar_name(jar_name(provider, version)),
        version_of_jar(provider, jar_name(provider, version)) == version,
{
    reveal_strlit("-");
    reveal_strlit(".jar");
    let p = provider + "-"@;
    let name = jar_name(provider, version);
    assert(name.subrange(name.len() - 4, name.len() as int) =~= ".jar"@);
    let stem = name.take(name.len() - 4);
    assert(stem =~= p + version);
    assert(stem.take(p.len() as int) =~= p);
    assert(stem.skip(p.len() as int) =~= version);
    lemma_remove_all_absent(version, p);
}

/// The arguments of `java` that run the server jar `jar_file` (a name inside the server
/// folder) with at most `ram` of heap and without the server's own window.
pub fn java_launch_args(ram: &str, jar_file: &str) -> (args: Vec<String>)
    ensures
        args@.len() == 4,
        args@[0]@ == "-Xmx"@ + ram@,
        args@[1]@ == "-jar"@,
        args@[2]@ == jar_file@,
        args@[3]@ == "nogui"@,
{
    let mut heap = String::from_str("-Xmx");
    heap.append(ram);
    let mut args: Vec<String> = Vec::new();
    args.push(heap);
    args.push(String::from_str("-jar"));
    args.push(String::from_str(jar_file));
    args.push(String::from_str("nogui"));
    args
}

// ---------------------------------------------------------------------
// Generated files
// ---------------------------------------------------------------------

/// What a fresh `server.properties` holds: offline mode unless `online` is asked for.
pub fn server_properties_content(online: bool) -> (s: String)
    ensures
        s@ == "online-mode="@ + (if online { "true"@ } else { "false"@ }) + "\n"@,
{
    let mut s = String::from_str("online-mode=");
    if online {
        s.append("true");
    } else {
        s.append("false");
    }
    s.append("\n");
    s
}

// ---------------------------------------------------------------------
// Listing versions
// ---------------------------------------------------------------------

/// How many versions a listing shows at most.
pub const SHOWN_VERSIONS: usize = 20;

/// The line that shows the version `v` at position `i` of the list (the first is the latest).
pub open spec fn listing_line(v: Seq<char>, i: int) -> Seq<char> {
    if i == 0 {
        "- "@ + v + " ★ latest"@
    } else {
        "- "@ + v
    }
}

/// The line that says how many versions were left out.
pub open spec fn more_line(left_out: nat) -> Seq<char> {
    "... and "@ + decimal(left_out) + " more (use --provider to filter)"@
}

/// The lines that list `versions` (newest first): at most the first twenty, the first marked
/// as the latest, then a line that counts the rest if any is left out.
pub fn version_list_lines(versions: &Vec<String>) -> (lines: Vec<String>)
    ensures
        ({
            let n = versions@.len();
            let shown = if n > 20 { 20 } else { n };
            &&& lines@.len() == shown + (if n > 20 { 1int } else { 0int })
            &&& forall|i: int| 0 <= i < shown ==> #[trigger] lines@[i]@ == listing_line(versions@[i]@, i)
            &&& n > 20 ==> lines@[20]@ == more_line((n - 20) as nat)
        }),
{
    let n = versions.len();
    let shown = if n > SHOWN_VERSIONS { SHOWN_VERSIONS } else { n };
    let mut lines: Vec<String> = Vec::new();
    let mut i: usize = 0;
    while i < shown
        invariant
            n == versions@.len(),
            shown == (if n > 20 { 20 } else { n }),
            i <= shown,
            lines@.len() == i,
            forall|j: int| 0 <= j < i ==> #[trigger] lines@[j]@ == listing_line(versions@[j]@, j),
        decreases shown - i,
    {
        let mut line = String::from_str("- ");
        line.append(versions[i].as_str());
        if i == 0 {
            line.append(" ★ latest");
        }
        lines.push(line);
        i = i + 1;
    }
    if n > SHOWN_VERSIONS {
        let mut more = String::from_str("... and ");
        push_decimal(&mut more, (n - SHOWN_VERSIONS) as u64);
        more.append(" more (use --provider to filter)");
        lines.push(more);
    }
    lines
}

} // verus!
