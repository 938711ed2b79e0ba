//! The update checker's decisions: which release is newest, whether it is
//! newer than the running version, which download to take, whether the
//! download matches its published SHA-256, and which program file to install
//! from the archive.

use vstd::prelude::*;
use vstd::string::*;

use crate::config::strings_view;
use crate::text::{
    chars_of, contains_chars, contains_seq, ends_with_chars, has_prefix, has_suffix, is_ws,
    is_whitespace, starts_with_chars, string_from_chars, strip_all_prefix,
    strip_all_prefix_chars, sub_chars, to_lowercase, trim_start, lowercase,
};

verus! {

// ---------------------------------------------------------------- versions

/// Whether `s` is a semantic version that the semver crate accepts.
pub uninterp spec fn semver_parses(s: Seq<char>) -> bool;

/// Whether version `a` precedes version `b` in semver's ordering (both
/// accepted by the semver crate).
pub uninterp spec fn semver_less(a: Seq<char>, b: Seq<char>) -> bool;

/// `semver::Version::parse(s).is_ok()`: whether the semver crate accepts
/// `s`. Which strings it accepts is left to the name `semver_parses`.
#[verifier::external_body]
fn version_parses(s: &str) -> (r: bool)
    ensures
        r == semver_parses(s@),
{
    semver::Version::parse(s).is_ok()
}

/// `<` on the `semver::Version`s that `Version::parse` gives for `a` and
/// `b`. The ordering itself is left to the name `semver_less`.
#[verifier::external_body]
fn version_less(a: &str, b: &str) -> (r: bool)
    requires
        semver_parses(a@),
        semver_parses(b@),
    ensures
        r == semver_less(a@, b@),
{
    match (semver::Version::parse(a), semver::Version::parse(b)) {
        (Ok(x), Ok(y)) => x < y,
        _ => false,
    }
}

/// A release tag without its leading `v`s, as `trim_start_matches('v')`
/// leaves it.
pub open spec fn tag_version(tag: Seq<char>) -> Seq<char> {
    strip_all_prefix(tag, "v"@)
}

/// The version text of a release tag.
pub fn strip_tag(tag: &str) -> (r: String)
    ensures
        r@ == tag_version(tag@),
{
    let cs = chars_of(tag);
    let v = chars_of("v");
    let t = strip_all_prefix_chars(&cs, &v);
    string_from_chars(t.as_slice())
}

/// The order of optional versions: a tag that is not a version comes before
/// every tag that is one.
pub open spec fn opt_version_less(a: Seq<char>, b: Seq<char>) -> bool {
    if !semver_parses(b) {
        false
    } else if !semver_parses(a) {
        true
    } else {
        semver_less(a, b)
    }
}

/// Whether version text `a` comes before `b`, unparsable text first.
pub fn tag_less(a: &str, b: &str) -> (r: bool)
    ensures
        r == opt_version_less(a@, b@),
{
    if !version_parses(b) {
        false
    } else if !version_parses(a) {
        true
    } else {
        version_less(a, b)
    }
}

/// The position of the newest release among tags, as `max_by` finds it
/// scanning left to right: a later tag replaces the current pick unless it
/// comes strictly before it, so among equals the last one wins.
pub open spec fn newest_release_spec(tags: Seq<Seq<char>>) -> Option<int>
    decreases tags.len(),
{
    if tags.len() == 0 {
        None
    } else {
        match newest_release_spec(tags.drop_last()) {
            None => Some(tags.len() - 1),
            Some(k) => if opt_version_less(tag_version(tags.last()), tag_version(tags[k])) {
                Some(k)
            } else {
                Some(tags.len() - 1)
            },
        }
    }
}

proof fn lemma_newest_in_range(tags: Seq<Seq<char>>)
    ensures
        newest_release_spec(tags) matches Some(k) ==> 0 <= k < tags.len(),
        tags.len() > 0 ==> newest_release_spec(tags) is Some,
    decreases tags.len(),
{
    if tags.len() > 0 {
        lemma_newest_in_range(tags.drop_last());
    }
}

/// Whether version text `a` comes before `b` in the pick: `b` is a
/// version, and `a` is either not one or a lower one.
pub open spec fn ranks_below(a: Seq<char>, b: Seq<char>) -> bool {
    semver_parses(b) && (!semver_parses(a) || semver_less(a, b))
}

/// The newest release is picked whenever there are tags, and as soon as
/// one tag (its leading `v`s stripped) is a version, so is the picked one.
pub proof fn lemma_newest_prefers_versions(tags: Seq<Seq<char>>)
    ensures
        tags.len() > 0 <==> newest_release_spec(tags) is Some,
        newest_release_spec(tags) matches Some(k) ==> 0 <= k < tags.len() && ((exists|j: int|
            0 <= j < tags.len() && semver_parses(#[trigger] tag_version(tags[j]))) ==> semver_parses(
            tag_version(tags[k]),
        )),
    decreases tags.len(),
{
    lemma_newest_in_range(tags);
    if tags.len() > 0 {
        let init = tags.drop_last();
        lemma_newest_prefers_versions(init);
        if let Some(k) = newest_release_spec(tags) {
            if exists|j: int| 0 <= j < tags.len() && semver_parses(#[trigger] tag_version(tags[j])) {
                let j = choose|j: int| 0 <= j < tags.len() && semver_parses(#[trigger] tag_version(tags[j]));
                if j < init.len() {
                    assert(init[j] == tags[j]);
                    assert(semver_parses(tag_version(init[j])));
                }
                match newest_release_spec(init) {
                    None => {},
                    Some(k0) => {
                        assert(init[k0] == tags[k0]);
                    },
                }
            }
        }
    }
}

/// Whether the version order is a strict total order on versions:
/// irreflexive, asymmetric, and with "not below" transitive, as semver's
/// `Ord` on `Version` is.
pub open spec fn version_order_total() -> bool {
    &&& forall|a: Seq<char>| semver_parses(a) ==> !#[trigger] semver_less(a, a)
    &&& forall|a: Seq<char>, b: Seq<char>|
        semver_parses(a) && semver_parses(b) && #[trigger] semver_less(a, b) ==> !semver_less(b, a)
    &&& forall|a: Seq<char>, b: Seq<char>, c: Seq<char>|
        semver_parses(a) && semver_parses(b) && semver_parses(c) && !#[trigger] semver_less(a, b)
            && !#[trigger] semver_less(b, c) ==> !semver_less(a, c)
}

/// The pick is a newest release: when the version order is a strict total
/// order, no tag's version (leading `v`s stripped) ranks above the picked
/// one's.
pub proof fn lemma_newest_is_newest(tags: Seq<Seq<char>>)
    ensures
        version_order_total() ==> (newest_release_spec(tags) matches Some(k) ==> forall|j: int|
            0 <= j < tags.len() ==> !ranks_below(tag_version(tags[k]), #[trigger] tag_version(tags[j]))),
{
    if version_order_total() {
        lemma_newest_is_maximal(tags);
    }
}

proof fn lemma_newest_is_maximal(tags: Seq<Seq<char>>)
    requires
        version_order_total(),
    ensures
        newest_release_spec(tags) matches Some(k) ==> forall|j: int|
            0 <= j < tags.len() ==> !ranks_below(tag_version(tags[k]), #[trigger] tag_version(tags[j])),
    decreases tags.len(),
{
    lemma_newest_in_range(tags);
    if tags.len() > 0 {
        let init = tags.drop_last();
        lemma_newest_is_maximal(init);
        lemma_newest_in_range(init);
        let t = tag_version(tags.last());
        match newest_release_spec(init) {
            None => {
                assert(init.len() == 0);
            },
            Some(k0) => {
                let b = tag_version(tags[k0]);
                assert(init[k0] == tags[k0]);
                if opt_version_less(t, b) {
                    assert forall|j: int| 0 <= j < tags.len() implies !ranks_below(b, #[trigger] tag_version(tags[j])) by {
                        if j < init.len() {
                            assert(init[j] == tags[j]);
                        }
                    }
                } else {
                    assert forall|j: int| 0 <= j < tags.len() implies !ranks_below(t, #[trigger] tag_version(tags[j])) by {
                        if j < init.len() {
                            assert(init[j] == tags[j]);
                            assert(!ranks_below(b, tag_version(init[j])));
                        }
                    }
                }
            },
        }
    }
}

/// Whether the update channel looks through every release, pre-releases
/// included (the "beta" channel), rather than only the latest stable one.
pub fn scans_all_releases(channel: &str) -> (r: bool)
    ensures
        r == (channel@ == "beta"@),
{
    let c = chars_of(channel);
    crate::text::chars_eq_str(&c, "beta")
}

/// The position of the newest release of the pre-release channel.
pub fn pick_newest_release(tags: &Vec<String>) -> (r: Option<usize>)
    ensures
        match r {
            Some(k) => newest_release_spec(strings_view(tags@)) == Some(k as int),
            None => newest_release_spec(strings_view(tags@)) is None,
        },
{
    let ghost all = strings_view(tags@);
    let mut best: Option<usize> = None;
    let mut best_version = String::new();
    let mut i: usize = 0;
    while i < tags.len()
        invariant
            i <= tags.len(),
            all == strings_view(tags@),
            all.len() == tags@.len(),
            match best {
                Some(k) => newest_release_spec(all.take(i as int)) == Some(k as int) && k < i
                    && best_version@ == tag_version(all[k as int]),
                None => newest_release_spec(all.take(i as int)) is None && i == 0,
            },
        decreases tags.len() - i,
    {
        let v = strip_tag(tags[i].as_str());
        proof {
            assert(all.take(i + 1).drop_last() =~= all.take(i as int));
            assert(all.take(i + 1).last() == all[i as int]);
            assert(all[i as int] == tags@[i as int]@);
            if let Some(k) = best {
                assert(all.take(i + 1)[k as int] == all[k as int]);
            }
        }
        match best {
            None => {
                best = Some(i);
                best_version = v;
            },
            Some(k) => {
                if !tag_less(v.as_str(), best_version.as_str()) {
                    best = Some(i);
                    best_version = v;
                }
            },
        }
        i = i + 1;
    }
    assert(all.take(tags.len() as int) =~= all);
    best
}

/// Why an update check or install failed.
#[derive(Debug, Clone)]
pub enum UpdateError {
    /// The newest release's version text is not a version.
    BadRemoteVersion(String),
    /// The running version is not a version.
    BadCurrentVersion,
    /// No release was found.
    NoReleases,
    /// No download for this architecture; holds the architecture.
    NoZipAsset(String),
    /// The archive holds no program file.
    NoExe,
    /// The download does not match its published hash: expected, actual.
    ShaMismatch(String, String),
}

/// The outcome of comparing the newest release's tag with the running
/// version: the newer version text, or none when it is not newer.
pub open spec fn update_check_spec(tag: Seq<char>, current: Seq<char>) -> Result<
    Option<Seq<char>>,
    (),
> {
    let remote = tag_version(tag);
    if !semver_parses(remote) {
        Err(())
    } else if !semver_parses(current) {
        Err(())
    } else if semver_less(current, remote) {
        Ok(Some(remote))
    } else {
        Ok(None)
    }
}

/// Compares the newest release's tag with the running version `current`:
/// `Some` of the release's version text when it is strictly newer.
pub fn check_update(tag: &str, current: &str) -> (r: Result<Option<String>, UpdateError>)
    ensures
        match r {
            Ok(Some(v)) => update_check_spec(tag@, current@) == Ok::<Option<Seq<char>>, ()>(
                Some(v@),
            ),
            Ok(None) => update_check_spec(tag@, current@) == Ok::<Option<Seq<char>>, ()>(None),
            Err(UpdateError::BadRemoteVersion(v)) => v@ == tag_version(tag@) && !semver_parses(
                v@,
            ),
            Err(UpdateError::BadCurrentVersion) => semver_parses(tag_version(tag@))
                && !semver_parses(current@),
            Err(_) => false,
        },
{
    let remote = strip_tag(tag);
    let remote_ok = version_parses(remote.as_str());
    let current_ok = version_parses(current);
    let newer = remote_ok && current_ok && version_less(current, remote.as_str());
    update_outcome(remote, remote_ok, current_ok, newer)
}

/// The result of an update check from its parts: the release's version
/// text, whether it and the running version are versions, and whether the
/// release is strictly newer. An unparsable release is reported first.
pub fn update_outcome(remote: String, remote_ok: bool, current_ok: bool, newer: bool) -> (r: Result<
    Option<String>,
    UpdateError,
>)
    ensures
        match r {
            Ok(Some(v)) => remote_ok && current_ok && newer && v@ == remote@,
            Ok(None) => remote_ok && current_ok && !newer,
            Err(UpdateError::BadRemoteVersion(v)) => !remote_ok && v@ == remote@,
            Err(UpdateError::BadCurrentVersion) => remote_ok && !current_ok,
            Err(_) => false,
        },
{
    if !remote_ok {
        Err(UpdateError::BadRemoteVersion(remote))
    } else if !current_ok {
        Err(UpdateError::BadCurrentVersion)
    } else if newer {
        Ok(Some(remote))
    } else {
        Ok(None)
    }
}

// ---------------------------------------------------------------- downloads

/// Whether an asset name is the combined portable archive: it ends in
/// `-portable.zip` and names none of the architectures.
pub open spec fn is_combined_zip(name: Seq<char>) -> bool {
    has_suffix(name, "-portable.zip"@) && !contains_seq(name, "-x64-portable"@) && !contains_seq(
        name,
        "-x86-portable"@,
    ) && !contains_seq(name, "-arm64-portable"@)
}

/// Whether an asset name is the archive for architecture `suffix`.
pub open spec fn is_arch_zip(name: Seq<char>, suffix: Seq<char>) -> bool {
    has_suffix(name, ".zip"@) && contains_seq(name, "-"@ + suffix + "-portable"@)
}

/// Whether `k` is the first position whose name satisfies `p`.
pub open spec fn first_match(names: Seq<Seq<char>>, p: spec_fn(Seq<char>) -> bool, k: int) -> bool {
    0 <= k < names.len() && p(names[k]) && forall|j: int| 0 <= j < k ==> !p(#[trigger] names[j])
}

/// Whether no name satisfies `p`.
pub open spec fn no_match(names: Seq<Seq<char>>, p: spec_fn(Seq<char>) -> bool) -> bool {
    forall|j: int| 0 <= j < names.len() ==> !p(#[trigger] names[j])
}

fn arch_zip_test(name: &Vec<char>, zip: &Vec<char>, arch: &Vec<char>) -> (r: bool)
    requires
        zip@ == ".zip"@,
    ensures
        r == (has_suffix(name@, zip@) && contains_seq(name@, arch@)),
{
    ends_with_chars(name, zip) && contains_chars(name, arch)
}

fn combined_zip_test(name: &Vec<char>) -> (r: bool)
    ensures
        r == is_combined_zip(name@),
{
    ends_with_chars(name, &chars_of("-portable.zip")) && !contains_chars(
        name,
        &chars_of("-x64-portable"),
    ) && !contains_chars(name, &chars_of("-x86-portable")) && !contains_chars(
        name,
        &chars_of("-arm64-portable"),
    )
}

/// The download to install for architecture `suffix`: the first archive
/// made for it, else the first combined archive.
pub fn select_zip_asset(names: &Vec<String>, suffix: &str) -> (r: Option<usize>)
    ensures
        match r {
            Some(k) => first_match(strings_view(names@), |n: Seq<char>| is_arch_zip(n, suffix@), k as int)
                || (no_match(strings_view(names@), |n: Seq<char>| is_arch_zip(n, suffix@))
                && first_match(strings_view(names@), |n: Seq<char>| is_combined_zip(n), k as int)),
            None => no_match(strings_view(names@), |n: Seq<char>| is_arch_zip(n, suffix@))
                && no_match(strings_view(names@), |n: Seq<char>| is_combined_zip(n)),
        },
{
    let ghost all = strings_view(names@);
    let mut arch = chars_of("-");
    let sc = chars_of(suffix);
    let mut sc2 = sc.clone();
    arch.append(&mut sc2);
    let mut tail = chars_of("-portable");
    arch.append(&mut tail);
    assert(arch@ =~= "-"@ + suffix@ + "-portable"@);
    let zip = chars_of(".zip");
    let mut i: usize = 0;
    while i < names.len()
        invariant
            i <= names.len(),
            all == strings_view(names@),
            arch@ == "-"@ + suffix@ + "-portable"@,
            zip@ == ".zip"@,
            forall|j: int| 0 <= j < i ==> !is_arch_zip(#[trigger] all[j], suffix@),
        decreases names.len() - i,
    {
        let n = chars_of(names[i].as_str());
        assert(all[i as int] == n@);
        if arch_zip_test(&n, &zip, &arch) {
            return Some(i);
        }
        i = i + 1;
    }
    let mut i: usize = 0;
    while i < names.len()
        invariant
            i <= names.len(),
            all == strings_view(names@),
            no_match(all, |n: Seq<char>| is_arch_zip(n, suffix@)),
            forall|j: int| 0 <= j < i ==> !is_combined_zip(#[trigger] all[j]),
        decreases names.len() - i,
    {
        let n = chars_of(names[i].as_str());
        assert(all[i as int] == n@);
        if combined_zip_test(&n) {
            return Some(i);
        }
        i = i + 1;
    }
    None
}

/// The position of the hash file published for the archive `zip_name`:
/// the first asset named `zip_name` followed by `.sha256`.
pub fn find_sha_asset(names: &Vec<String>, zip_name: &str) -> (r: Option<usize>)
    ensures
        match r {
            Some(k) => first_match(strings_view(names@), |n: Seq<char>| n == zip_name@ + ".sha256"@, k as int),
            None => no_match(strings_view(names@), |n: Seq<char>| n == zip_name@ + ".sha256"@),
        },
{
    let ghost all = strings_view(names@);
    let mut want = String::from_str(zip_name);
    want.append(".sha256");
    let mut i: usize = 0;
    while i < names.len()
        invariant
            i <= names.len(),
            all == strings_view(names@),
            want@ == zip_name@ + ".sha256"@,
            forall|j: int| 0 <= j < i ==> #[trigger] all[j] != zip_name@ + ".sha256"@,
        decreases names.len() - i,
    {
        assert(all[i as int] == names@[i as int]@);
        if names[i].eq(&want) {
            return Some(i);
        }
        i = i + 1;
    }
    None
}

// ---------------------------------------------------------------- hashes

/// The SHA-256 digest of `data`.
pub uninterp spec fn sha256_digest(data: Seq<u8>) -> Seq<u8>;

/// `<sha2::Sha256 as Digest>::digest(data)`: the SHA-256 digest of `data`,
/// 32 bytes. The digest function itself is left to the name
/// `sha256_digest`.
#[verifier::external_body]
fn sha256(data: &[u8]) -> (r: Vec<u8>)
    ensures
        r@ == sha256_digest(data@),
        r@.len() == 32,
{
    <sha2::Sha256 as sha2::Digest>::digest(data).to_vec()
}

/// Bytes as lower-case hexadecimal text, two digits per byte, high nibble
/// first.
pub open spec fn hex_lower(data: Seq<u8>) -> Seq<char>
    decreases data.len(),
{
    if data.len() == 0 {
        Seq::empty()
    } else {
        hex_lower(data.drop_last()) + seq![
            crate::text::hex_lower_digit(data.last() as int / 16),
            crate::text::hex_lower_digit(data.last() as int % 16),
        ]
    }
}

/// `hex::encode(data)`: each byte as two lower-case hexadecimal digits,
/// high nibble first, as the hex crate documents it.
#[verifier::external_body]
fn hex_encode(data: &[u8]) -> (r: String)
    ensures
        r@ == hex_lower(data@),
{
    hex::encode(data)
}

/// The first whitespace-separated word of `s`, or empty when there is none.
pub open spec fn first_word(s: Seq<char>) -> Seq<char> {
    let t = trim_start(s);
    if exists|k: int| 0 <= k < t.len() && is_ws(#[trigger] t[k]) {
        let k = choose|k: int| 0 <= k < t.len() && is_ws(#[trigger] t[k]) && forall|j: int|
            0 <= j < k ==> !is_ws(t[j]);
        t.take(k)
    } else {
        t
    }
}

/// The hash that a published `.sha256` file states: its first word,
/// lower-cased.
pub open spec fn expected_hash(text: Seq<char>) -> Seq<char> {
    lowercase(first_word(text))
}

/// The first whitespace-separated word of `s`.
pub fn first_word_of(s: &str) -> (r: String)
    ensures
        r@ == first_word(s@),
{
    let cs = chars_of(s);
    let mut i: usize = 0;
    while i < cs.len() && is_whitespace(cs[i])
        invariant
            i <= cs.len(),
            forall|k: int| 0 <= k < i ==> is_ws(#[trigger] cs@[k]),
        decreases cs.len() - i,
    {
        i = i + 1;
    }
    let t = sub_chars(&cs, i, cs.len());
    proof {
        crate::text::lemma_trim_start_skip(cs@, i as int);
    }
    let mut j: usize = 0;
    while j < t.len() && !is_whitespace(t[j])
        invariant
            j <= t.len(),
            forall|k: int| 0 <= k < j ==> !is_ws(#[trigger] t@[k]),
        decreases t.len() - j,
    {
        j = j + 1;
    }
    proof {
        if j < t.len() {
            let k = choose|k: int| 0 <= k < t@.len() && is_ws(#[trigger] t@[k]) && forall|m: int|
                0 <= m < k ==> !is_ws(t@[m]);
            assert(k == j) by {
                if k < j {
                    assert(!is_ws(t@[k]));
                } else if k > j {
                    assert(!is_ws(t@[j as int]));
                }
            }
        }
    }
    let w = sub_chars(&t, 0, j);
    string_from_chars(w.as_slice())
}


/// Checks a SHA-256 digest against the text of a published `.sha256` file:
/// the file's first word, lower-cased, must equal the digest in lower-case
/// hexadecimal.
pub fn verify_digest(digest: &[u8], sha_text: &str) -> (r: Result<(), UpdateError>)
    ensures
        match r {
            Ok(()) => expected_hash(sha_text@) == hex_lower(digest@),
            Err(UpdateError::ShaMismatch(e, a)) => e@ == expected_hash(sha_text@) && a@
                == hex_lower(digest@) && e@ != a@,
            Err(_) => false,
        },
{
    let word = first_word_of(sha_text);
    let expected = to_lowercase(word.as_str());
    let actual = hex_encode(digest);
    if actual.eq(&expected) {
        Ok(())
    } else {
        Err(UpdateError::ShaMismatch(expected, actual))
    }
}

/// Checks a download against the text of its published `.sha256` file: the
/// file's first word, lower-cased, must equal the download's SHA-256 in
/// lower-case hexadecimal.
pub fn verify_download(data: &[u8], sha_text: &str) -> (r: Result<(), UpdateError>)
    ensures
        match r {
            Ok(()) => expected_hash(sha_text@) == hex_lower(sha256_digest(data@)),
            Err(UpdateError::ShaMismatch(e, a)) => e@ == expected_hash(sha_text@) && a@
                == hex_lower(sha256_digest(data@)) && e@ != a@,
            Err(_) => false,
        },
{
    let digest = sha256(data);
    verify_digest(digest.as_slice(), sha_text)
}

// ---------------------------------------------------------------- archive entries

/// An archive entry name with backslashes turned into slashes.
pub open spec fn slashed(name: Seq<char>) -> Seq<char> {
    name.map_values(|c: char| if c == '\\' { '/' } else { c })
}

/// Whether a (slashed) entry is a program file.
pub open spec fn is_exe(name: Seq<char>) -> bool {
    has_suffix(name, ".exe"@)
}

/// Whether a (slashed) entry is the program file for architecture `suffix`:
/// it lies in a folder of that name.
pub open spec fn is_arch_exe(name: Seq<char>, suffix: Seq<char>) -> bool {
    is_exe(name) && (contains_seq(name, "/"@ + suffix + "/"@) || has_prefix(name, suffix + "/"@))
}

/// The entry to install: the first program file in the architecture's
/// folder, else the first program file at all.
pub open spec fn exe_entry_spec(names: Seq<Seq<char>>, suffix: Seq<char>, k: int) -> bool {
    let s = names.map_values(|n: Seq<char>| slashed(n));
    first_match(s, |n: Seq<char>| is_arch_exe(n, suffix), k) || (no_match(
        s,
        |n: Seq<char>| is_arch_exe(n, suffix),
    ) && first_match(s, |n: Seq<char>| is_exe(n), k))
}

/// `name` with backslashes turned into slashes.
pub fn slash_name(name: &str) -> (r: Vec<char>)
    ensures
        r@ == slashed(name@),
{
    let cs = chars_of(name);
    let mut out: Vec<char> = Vec::new();
    let mut i: usize = 0;
    while i < cs.len()
        invariant
            i <= cs.len(),
            cs@ == name@,
            out@ == slashed(cs@.take(i as int)),
        decreases cs.len() - i,
    {
        if cs[i] == '\\' {
            out.push('/');
        } else {
            out.push(cs[i]);
        }
        i = i + 1;
        assert(out@ =~= slashed(cs@.take(i as int)));
    }
    assert(cs@.take(cs.len() as int) =~= cs@);
    out
}

/// The archive entry to install for architecture `suffix`.
pub fn select_exe_entry(names: &Vec<String>, suffix: &str) -> (r: Option<usize>)
    ensures
        match r {
            Some(k) => exe_entry_spec(strings_view(names@), suffix@, k as int),
            None => no_match(
                strings_view(names@).map_values(|n: Seq<char>| slashed(n)),
                |n: Seq<char>| is_exe(n),
            ),
        },
{
    let ghost s = strings_view(names@).map_values(|n: Seq<char>| slashed(n));
    let exe = chars_of(".exe");
    let sc = chars_of(suffix);
    let mut dir = chars_of("/");
    let mut sc2 = sc.clone();
    dir.append(&mut sc2);
    dir.push('/');
    let mut prefix = sc.clone();
    prefix.push('/');
    proof {
        reveal_strlit("/");
        assert(dir@ =~= "/"@ + suffix@ + "/"@);
        assert(prefix@ =~= suffix@ + "/"@);
    }
    let mut any_exe: Option<usize> = None;
    let mut i: usize = 0;
    while i < names.len()
        invariant
            i <= names.len(),
            s == strings_view(names@).map_values(|n: Seq<char>| slashed(n)),
            s.len() == names@.len(),
            exe@ == ".exe"@,
            dir@ == "/"@ + suffix@ + "/"@,
            prefix@ == suffix@ + "/"@,
            forall|j: int| 0 <= j < i ==> !is_arch_exe(#[trigger] s[j], suffix@),
            match any_exe {
                Some(k) => first_match(s, |n: Seq<char>| is_exe(n), k as int),
                None => forall|j: int| 0 <= j < i ==> !is_exe(#[trigger] s[j]),
            },
        decreases names.len() - i,
    {
        let n = slash_name(names[i].as_str());
        assert(s[i as int] == n@);
        if ends_with_chars(&n, &exe) {
            if any_exe.is_none() {
                any_exe = Some(i);
            }
            if contains_chars(&n, &dir) || starts_with_chars(&n, &prefix) {
                return Some(i);
            }
        }
        i = i + 1;
    }
    any_exe
}

} // verus!
