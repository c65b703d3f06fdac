//! Release checking for the widget: version comparison, the choice of the
//! installer and checksum assets of a release, checksum files, changelog
//! bullets, and the integrity gate in front of running a downloaded
//! installer. The HTTP requests are made by the caller, which hands the
//! release and the downloaded texts and bytes to these functions.

use vstd::prelude::*;
use crate::crypto::{sha256, sha256_digest};
use crate::text::{
    all_digits, chars_of, copy_chars, decimal_value, eq_ignore_case, eq_ignore_case_exec, eq_str,
    ends_with, ends_with_seq, is_hex, is_hex_exec, is_ws, join, join_vec, lemma_split_fields_nonempty,
    lower_seq, opt_view, parse_u32, parse_u32_exec, seq_eq, split_fields, split_vec, starts_with,
    starts_with_seq, string_of, to_lowercase, trim, trim_start_char, trim_start_char_vec, trim_vec,
    unicode_lowercase, words, words_vec,
};

verus! {

/// The page of the latest release, for the "view on GitHub" link.
pub const RELEASES_URL: &'static str = "https://github.com/DruidFluids/fluxid/releases/latest";

/// A newer release that passed version comparison and is ready to download.
#[derive(Debug)]
pub struct PendingUpdate {
    pub version: String,
    pub changelog: String,
    pub url: String,
    /// Expected SHA-256 (hex) from the release, if one was published.
    pub sha256: Option<String>,
}

/// Outcome of a "Check now" or automatic check.
#[derive(Debug)]
pub enum CheckResult {
    UpToDate,
    Available(PendingUpdate),
    Failed(String),
}

/// One downloadable asset of a release.
#[derive(Debug)]
pub struct ReleaseAsset {
    pub name: String,
    pub browser_download_url: String,
}

/// The fields of the latest-release document that the check reads (a
/// missing field reads as empty).
#[derive(Debug)]
pub struct Release {
    pub tag_name: String,
    pub body: String,
    pub assets: Vec<ReleaseAsset>,
}

// ---------------------------------------------------------------------
// Versions

/// The numbers among `fields`, in order: each field that parses as a `u32`.
pub open spec fn version_numbers(fields: Seq<Seq<char>>) -> Seq<u32>
    decreases fields.len(),
{
    if fields.len() == 0 {
        Seq::empty()
    } else {
        let prev = version_numbers(fields.drop_last());
        match parse_u32(fields.last()) {
            Some(n) => prev.push(n),
            None => prev,
        }
    }
}

pub open spec fn nth_or_zero(s: Seq<u32>, i: int) -> u32 {
    if 0 <= i < s.len() {
        s[i]
    } else {
        0
    }
}

/// The separators of version components.
pub open spec fn version_seps() -> Seq<char> {
    seq!['.', '-']
}

/// The (major, minor, patch) of a version text: the first three numeric
/// components between `.` and `-`, a missing one counting as 0.
pub open spec fn version_of(v: Seq<char>) -> (u32, u32, u32) {
    let n = version_numbers(split_fields(v, version_seps()));
    (nth_or_zero(n, 0), nth_or_zero(n, 1), nth_or_zero(n, 2))
}

/// Lexicographic order on version triples.
pub open spec fn version_le(a: (u32, u32, u32), b: (u32, u32, u32)) -> bool {
    ||| a.0 < b.0
    ||| a.0 == b.0 && a.1 < b.1
    ||| a.0 == b.0 && a.1 == b.1 && a.2 <= b.2
}

/// Versions are ordered as `(major, minor, patch)` tuples: the order is
/// total and antisymmetric, a higher major wins, then a higher minor, and
/// with the same major and minor the patch decides. So a release is newer
/// exactly when its triple is greater, and a patch release over the running
/// version (same major and minor, higher patch) is newer.
pub proof fn law_versions_order_as_tuples(a: (u32, u32, u32), b: (u32, u32, u32))
    ensures
        version_le(a, b) || version_le(b, a),
        version_le(a, b) && version_le(b, a) ==> a == b,
        version_le(a, a),
        a.0 < b.0 ==> version_le(a, b) && !version_le(b, a),
        a.0 == b.0 && a.1 < b.1 ==> version_le(a, b) && !version_le(b, a),
        a.0 == b.0 && a.1 == b.1 ==> (version_le(a, b) <==> a.2 <= b.2),
        a.0 == b.0 && a.1 == b.1 && a.2 > b.2 ==> !version_le(a, b),
{
}

/// An update is offered exactly when the tag's version triple is greater
/// than the running one: with equal major and minor, a higher patch is an
/// update and an equal or lower one is not.
pub proof fn law_patch_release_is_newer(tag: Seq<char>, current: Seq<char>)
    ensures
        ({
            let t = version_of(tag);
            let c = version_of(current);
            &&& t.0 == c.0 && t.1 == c.1 ==> (!version_le(t, c) <==> t.2 > c.2)
            &&& t.0 > c.0 ==> !version_le(t, c)
            &&& t.0 < c.0 ==> version_le(t, c)
            &&& t == c ==> version_le(t, c)
        }),
{
}

/// Parse a version text such as `1.4.2` or `2.0-beta.3`.
pub fn parse_version(v: &str) -> (r: (u32, u32, u32))
    ensures
        r == version_of(v@),
{
    let cs = chars_of(v);
    let seps = vec!['.', '-'];
    assert(seps@ =~= version_seps());
    let fields = split_vec(cs.as_slice(), seps.as_slice());
    let ghost f = fields@.map_values(|x: Vec<char>| x@);
    let mut nums: Vec<u32> = Vec::new();
    let mut i: usize = 0;
    while i < fields.len()
        invariant
            i <= fields@.len(),
            f == fields@.map_values(|x: Vec<char>| x@),
            nums@ == version_numbers(f.take(i as int)),
        decreases fields@.len() - i,
    {
        assert(f.take(i + 1).drop_last() =~= f.take(i as int));
        assert(f.take(i + 1).last() == fields@[i as int]@);
        match parse_u32_exec(fields[i].as_slice()) {
            Some(n) => {
                nums.push(n);
            },
            None => {},
        }
        i = i + 1;
    }
    assert(f.take(fields@.len() as int) =~= f);
    let a = if nums.len() > 0 { nums[0] } else { 0 };
    let b = if nums.len() > 1 { nums[1] } else { 0 };
    let c = if nums.len() > 2 { nums[2] } else { 0 };
    (a, b, c)
}

/// `a <= b` on version triples.
pub fn version_at_most(a: (u32, u32, u32), b: (u32, u32, u32)) -> (r: bool)
    ensures
        r == version_le(a, b),
{
    a.0 < b.0 || (a.0 == b.0 && a.1 < b.1) || (a.0 == b.0 && a.1 == b.1 && a.2 <= b.2)
}

/// Whether release `tag` is newer than the running `current` version.
pub fn is_newer(tag: &str, current: &str) -> (r: bool)
    ensures
        r == !version_le(version_of(tag@), version_of(current@)),
{
    !version_at_most(parse_version(tag), parse_version(current))
}

// ---------------------------------------------------------------------
// Changelog

/// A changelog bullet: a trimmed line that starts with `- ` or `* `.
pub open spec fn is_bullet(t: Seq<char>) -> bool {
    starts_with(t, seq!['-', ' ']) || starts_with(t, seq!['*', ' '])
}

/// The trimmed bullet lines among `lines`, in order.
pub open spec fn bullet_lines(lines: Seq<Seq<char>>) -> Seq<Seq<char>>
    decreases lines.len(),
{
    if lines.len() == 0 {
        Seq::empty()
    } else {
        let prev = bullet_lines(lines.drop_last());
        let t = trim(lines.last());
        if is_bullet(t) {
            prev.push(t)
        } else {
            prev
        }
    }
}

/// The line break.
pub open spec fn newline() -> Seq<char> {
    seq!['\n']
}

/// A release body filtered down to its bullet lines, one per line; a body
/// without bullets is shown whole, trimmed. (Splitting at every line break
/// gives the lines of `str::lines`, plus an empty last line where the body
/// ends with a break; an empty line is never a bullet.)
pub open spec fn changelog_of(body: Seq<char>) -> Seq<char> {
    let b = bullet_lines(split_fields(body, newline()));
    if b.len() == 0 {
        trim(body)
    } else {
        join(b, newline())
    }
}

/// Filter a release body down to its changelog bullet lines.
pub fn changelog_bullets(body: &str) -> (r: String)
    ensures
        r@ == changelog_of(body@),
{
    let cs = chars_of(body);
    let nl = vec!['\n'];
    assert(nl@ =~= newline());
    let lines = split_vec(cs.as_slice(), nl.as_slice());
    let ghost l = lines@.map_values(|x: Vec<char>| x@);
    let dash = vec!['-', ' '];
    let star = vec!['*', ' '];
    let mut bullets: Vec<Vec<char>> = Vec::new();
    let mut i: usize = 0;
    while i < lines.len()
        invariant
            i <= lines@.len(),
            l == lines@.map_values(|x: Vec<char>| x@),
            dash@ == seq!['-', ' '],
            star@ == seq!['*', ' '],
            bullets@.map_values(|x: Vec<char>| x@) == bullet_lines(l.take(i as int)),
        decreases lines@.len() - i,
    {
        assert(l.take(i + 1).drop_last() =~= l.take(i as int));
        assert(l.take(i + 1).last() == lines@[i as int]@);
        let t = trim_vec(lines[i].as_slice());
        let ghost before = bullets@.map_values(|x: Vec<char>| x@);
        if starts_with_seq(t.as_slice(), dash.as_slice()) || starts_with_seq(
            t.as_slice(),
            star.as_slice(),
        ) {
            bullets.push(t);
            assert(bullets@.map_values(|x: Vec<char>| x@) =~= before.push(t@));
        }
        i = i + 1;
    }
    assert(l.take(lines@.len() as int) =~= l);
    if bullets.len() == 0 {
        let t = trim_vec(cs.as_slice());
        string_of(t.as_slice())
    } else {
        let j = join_vec(&bullets, nl.as_slice());
        string_of(j.as_slice())
    }
}

// ---------------------------------------------------------------------
// Checksum files

/// 64 hexadecimal digits: a SHA-256 digest in hex.
pub open spec fn is_sha256_hex(h: Seq<char>) -> bool {
    h.len() == 64 && forall|i: int| 0 <= i < h.len() ==> is_hex(#[trigger] h[i])
}

/// The digest that one line of a checksum file gives for installer `exe`:
/// its first word when that is a hex digest and it stands alone, or the
/// second word names `exe` (ignoring ASCII case and a leading `*` binary
/// marker).
pub open spec fn line_checksum(line: Seq<char>, exe: Seq<char>) -> Option<Seq<char>> {
    let w = words(line);
    let hash = if w.len() > 0 {
        w[0]
    } else {
        Seq::<char>::empty()
    };
    if !is_sha256_hex(hash) {
        None
    } else if w.len() < 2 {
        Some(hash)
    } else if eq_ignore_case(trim_start_char(w[1], '*'), exe) {
        Some(hash)
    } else {
        None
    }
}

/// The digest given by the first line of `lines` that gives one.
pub open spec fn first_checksum(lines: Seq<Seq<char>>, exe: Seq<char>) -> Option<Seq<char>>
    decreases lines.len(),
{
    if lines.len() == 0 {
        None
    } else {
        match line_checksum(lines[0], exe) {
            Some(h) => Some(h),
            None => first_checksum(lines.drop_first(), exe),
        }
    }
}

/// The digest a checksum file (a bare digest, or `SHA256SUMS` lines of
/// `<digest>  <file>`) gives for installer `exe`.
pub open spec fn checksum_in(text: Seq<char>, exe: Seq<char>) -> Option<Seq<char>> {
    first_checksum(split_fields(text, newline()), exe)
}

fn is_sha256_hex_exec(h: &[char]) -> (r: bool)
    ensures
        r == is_sha256_hex(h@),
{
    if h.len() != 64 {
        return false;
    }
    let mut i: usize = 0;
    while i < h.len()
        invariant
            i <= h@.len(),
            forall|j: int| 0 <= j < i ==> is_hex(#[trigger] h@[j]),
        decreases h@.len() - i,
    {
        if !is_hex_exec(h[i]) {
            return false;
        }
        i = i + 1;
    }
    true
}

fn line_checksum_exec(line: &[char], exe: &[char]) -> (r: Option<Vec<char>>)
    ensures
        opt_chars(r) == line_checksum(line@, exe@),
{
    let w = words_vec(line);
    let ghost ws = w@.map_values(|x: Vec<char>| x@);
    let empty: Vec<char> = Vec::new();
    let hash: &Vec<char> = if w.len() > 0 {
        &w[0]
    } else {
        &empty
    };
    assert(hash@ == (if ws.len() > 0 { ws[0] } else { Seq::<char>::empty() }));
    if !is_sha256_hex_exec(hash.as_slice()) {
        return None;
    }
    if w.len() < 2 {
        return Some(copy_chars(hash.as_slice()));
    }
    let file = trim_start_char_vec(w[1].as_slice(), '*');
    assert(ws[1] == w@[1]@);
    if eq_ignore_case_exec(file.as_slice(), exe) {
        Some(copy_chars(hash.as_slice()))
    } else {
        None
    }
}

/// The view of an optional character vector.
pub open spec fn opt_chars(o: Option<Vec<char>>) -> Option<Seq<char>> {
    match o {
        Some(v) => Some(v@),
        None => None,
    }
}

/// Extract the hex digest for installer `exe_name` from a downloaded
/// checksum file.
pub fn checksum_for(text: &str, exe_name: &str) -> (r: Option<String>)
    ensures
        opt_view(r) == checksum_in(text@, exe_name@),
{
    let cs = chars_of(text);
    let exe = chars_of(exe_name);
    let nl = vec!['\n'];
    assert(nl@ =~= newline());
    let lines = split_vec(cs.as_slice(), nl.as_slice());
    let ghost l = lines@.map_values(|x: Vec<char>| x@);
    let mut i: usize = 0;
    assert(l.skip(0) =~= l);
    while i < lines.len()
        invariant
            i <= lines@.len(),
            l == lines@.map_values(|x: Vec<char>| x@),
            l == split_fields(text@, newline()),
            exe@ == exe_name@,
            checksum_in(text@, exe_name@) == first_checksum(l.skip(i as int), exe_name@),
        decreases lines@.len() - i,
    {
        assert(l.skip(i as int)[0] == lines@[i as int]@);
        assert(l.skip(i as int).drop_first() =~= l.skip(i + 1));
        match line_checksum_exec(lines[i].as_slice(), exe.as_slice()) {
            Some(h) => {
                return Some(string_of(h.as_slice()));
            },
            None => {},
        }
        i = i + 1;
    }
    None
}

// ---------------------------------------------------------------------
// Choosing the assets of a release

pub open spec fn exe_suffix() -> Seq<char> {
    seq!['.', 'e', 'x', 'e']
}

/// Asset `i` is an installer: its lowercased name ends with `.exe` and it
/// has a download address.
pub open spec fn is_installer(assets: Seq<ReleaseAsset>, i: int) -> bool {
    &&& 0 <= i < assets.len()
    &&& ends_with(unicode_lowercase(assets[i].name@), exe_suffix())
    &&& assets[i].browser_download_url@.len() > 0
}

/// The first installer asset at or after `i`.
pub open spec fn first_installer_from(assets: Seq<ReleaseAsset>, i: int) -> Option<int>
    decreases assets.len() - i,
{
    if i < 0 || i >= assets.len() {
        None
    } else if is_installer(assets, i) {
        Some(i)
    } else {
        first_installer_from(assets, i + 1)
    }
}

/// The lowercased name of the checksum asset for installer `exe_name`.
pub open spec fn checksum_want(exe_name: Seq<char>) -> Seq<char> {
    unicode_lowercase(exe_name + ".sha256"@)
}

/// Asset `i` holds checksums: its lowercased name is `want`, `sha256sums`
/// or `sha256sums.txt`.
pub open spec fn is_checksum_asset(assets: Seq<ReleaseAsset>, want: Seq<char>, i: int) -> bool {
    &&& 0 <= i < assets.len()
    &&& {
        let l = unicode_lowercase(assets[i].name@);
        l == want || l == "sha256sums"@ || l == "sha256sums.txt"@
    }
}

/// The first checksum asset at or after `i`.
pub open spec fn first_checksum_asset_from(assets: Seq<ReleaseAsset>, want: Seq<char>, i: int) -> Option<int>
    decreases assets.len() - i,
{
    if i < 0 || i >= assets.len() {
        None
    } else if is_checksum_asset(assets, want, i) {
        Some(i)
    } else {
        first_checksum_asset_from(assets, want, i + 1)
    }
}

/// Index of the installer asset: the first one.
pub fn installer_asset(assets: &Vec<ReleaseAsset>) -> (r: Option<usize>)
    ensures
        match r {
            Some(i) => i < assets@.len() && first_installer_from(assets@, 0) == Some(i as int),
            None => first_installer_from(assets@, 0) is None,
        },
{
    let mut i: usize = 0;
    while i < assets.len()
        invariant
            i <= assets@.len(),
            first_installer_from(assets@, 0) == first_installer_from(assets@, i as int),
        decreases assets@.len() - i,
    {
        let lowered = to_lowercase(assets[i].name.as_str());
        let lc = chars_of(lowered.as_str());
        let suffix = vec!['.', 'e', 'x', 'e'];
        assert(suffix@ =~= exe_suffix());
        if ends_with_seq(lc.as_slice(), suffix.as_slice()) && !assets[i].browser_download_url.as_str().is_empty() {
            return Some(i);
        }
        i = i + 1;
    }
    None
}

/// Index of the checksum asset for installer `exe_name`: the first one.
pub fn checksum_asset(assets: &Vec<ReleaseAsset>, exe_name: &str) -> (r: Option<usize>)
    ensures
        match r {
            Some(i) => i < assets@.len() && first_checksum_asset_from(
                assets@,
                checksum_want(exe_name@),
                0,
            ) == Some(i as int),
            None => first_checksum_asset_from(assets@, checksum_want(exe_name@), 0) is None,
        },
{
    let mut with_ext = String::new();
    with_ext.append(exe_name);
    with_ext.append(".sha256");
    assert(with_ext@ =~= exe_name@ + ".sha256"@);
    let want_s = to_lowercase(with_ext.as_str());
    let want = chars_of(want_s.as_str());
    let ghost w = checksum_want(exe_name@);
    let mut i: usize = 0;
    while i < assets.len()
        invariant
            i <= assets@.len(),
            want@ == w,
            w == checksum_want(exe_name@),
            first_checksum_asset_from(assets@, w, 0) == first_checksum_asset_from(
                assets@,
                w,
                i as int,
            ),
        decreases assets@.len() - i,
    {
        let lowered = to_lowercase(assets[i].name.as_str());
        let lc = chars_of(lowered.as_str());
        if seq_eq(lc.as_slice(), want.as_slice()) || eq_str(lc.as_slice(), "sha256sums") || eq_str(
            lc.as_slice(),
            "sha256sums.txt",
        ) {
            return Some(i);
        }
        i = i + 1;
    }
    None
}

/// A newer release with an installer, before its checksum file is fetched.
#[derive(Debug)]
pub struct UpdatePlan {
    pub version: String,
    pub changelog: String,
    pub url: String,
    pub exe_name: String,
    /// Where the checksum file is published, if it is.
    pub checksum_url: Option<String>,
}

/// The release tag without its leading `v`s.
pub open spec fn tag_version(release: Release) -> Seq<char> {
    trim_start_char(release.tag_name@, 'v')
}

/// The checksum address for installer asset `i`, if a checksum asset with
/// an address is published.
pub open spec fn checksum_url_for(assets: Seq<ReleaseAsset>, i: int) -> Option<Seq<char>> {
    match first_checksum_asset_from(assets, checksum_want(assets[i].name@), 0) {
        Some(j) => if assets[j].browser_download_url@.len() > 0 {
            Some(assets[j].browser_download_url@)
        } else {
            None
        },
        None => None,
    }
}

/// Decide whether `release` is an update over the running `current`
/// version, and if so which assets to fetch: no plan when the release is
/// not newer or has no installer.
pub fn plan_update(current: &str, release: &Release) -> (r: Option<UpdatePlan>)
    ensures
        match r {
            None => version_le(version_of(tag_version(*release)), version_of(current@))
                || first_installer_from(release.assets@, 0) is None,
            Some(p) => {
                &&& !version_le(version_of(tag_version(*release)), version_of(current@))
                &&& match first_installer_from(release.assets@, 0) {
                    Some(i) => {
                        &&& p.version@ == tag_version(*release)
                        &&& p.changelog@ == release.body@
                        &&& p.url@ == release.assets@[i].browser_download_url@
                        &&& p.exe_name@ == release.assets@[i].name@
                        &&& opt_view(p.checksum_url) == checksum_url_for(release.assets@, i)
                    },
                    None => false,
                }
            },
        },
{
    let tag_chars = chars_of(release.tag_name.as_str());
    let tag_v = trim_start_char_vec(tag_chars.as_slice(), 'v');
    let tag = string_of(tag_v.as_slice());
    if !is_newer(tag.as_str(), current) {
        return None;
    }
    let i = match installer_asset(&release.assets) {
        Some(i) => i,
        None => {
            return None;
        },
    };
    let asset = &release.assets[i];
    let checksum_url = match checksum_asset(&release.assets, asset.name.as_str()) {
        Some(j) => if !release.assets[j].browser_download_url.as_str().is_empty() {
            Some(release.assets[j].browser_download_url.clone())
        } else {
            None
        },
        None => None,
    };
    Some(
        UpdatePlan {
            version: tag,
            changelog: release.body.clone(),
            url: asset.browser_download_url.clone(),
            exe_name: asset.name.clone(),
            checksum_url,
        },
    )
}

/// The update a plan leads to, given the checksum file's text if one was
/// published and could be fetched.
pub fn pending_update(plan: UpdatePlan, checksum_text: Option<String>) -> (r: PendingUpdate)
    ensures
        r.version@ == plan.version@,
        r.changelog@ == plan.changelog@,
        r.url@ == plan.url@,
        opt_view(r.sha256) == match checksum_text {
            Some(t) => checksum_in(t@, plan.exe_name@),
            None => None,
        },
{
    let sha256 = match checksum_text {
        Some(t) => checksum_for(t.as_str(), plan.exe_name.as_str()),
        None => None,
    };
    PendingUpdate { version: plan.version, changelog: plan.changelog, url: plan.url, sha256 }
}

/// The outcome reported for a check: an update found, none, or the error.
pub fn check_result(outcome: Result<Option<PendingUpdate>, String>) -> (r: CheckResult)
    ensures
        match outcome {
            Ok(Some(u)) => r == CheckResult::Available(u),
            Ok(None) => r == CheckResult::UpToDate,
            Err(e) => r == CheckResult::Failed(e),
        },
{
    match outcome {
        Ok(Some(u)) => CheckResult::Available(u),
        Ok(None) => CheckResult::UpToDate,
        Err(e) => CheckResult::Failed(e),
    }
}

/// The tag and the trimmed notes of the latest release, for display.
pub fn release_notes(release: &Release) -> (r: (String, String))
    ensures
        r.0@ == release.tag_name@,
        r.1@ == trim(release.body@),
{
    let body = chars_of(release.body.as_str());
    let t = trim_vec(body.as_slice());
    (release.tag_name.clone(), string_of(t.as_slice()))
}

// ---------------------------------------------------------------------
// Running a downloaded installer

/// A lowercase hexadecimal digit for `n` in `0..16`.
pub open spec fn hex_digit(n: int) -> char {
    if n < 10 {
        (n + 48) as char
    } else {
        (n + 87) as char
    }
}

/// Lowercase hex of `b`, two digits per byte.
pub open spec fn hex_lower(b: Seq<u8>) -> Seq<char>
    decreases b.len(),
{
    if b.len() == 0 {
        Seq::empty()
    } else {
        hex_lower(b.drop_last()) + seq![hex_digit(b.last() as int / 16), hex_digit(b.last() as int % 16)]
    }
}

fn hex_digit_exec(n: u8) -> (c: char)
    requires
        n < 16,
    ensures
        c == hex_digit(n as int),
{
    if n < 10 {
        (n + 48) as char
    } else {
        (n + 87) as char
    }
}

/// Lowercase hex SHA-256 of `bytes`.
pub fn sha256_hex(bytes: &[u8]) -> (r: String)
    ensures
        r@ == hex_lower(sha256_digest(bytes@)),
{
    let d = sha256(bytes);
    let mut out: Vec<char> = Vec::new();
    let mut i: usize = 0;
    while i < 32
        invariant
            i <= 32,
            d@.len() == 32,
            d@ == sha256_digest(bytes@),
            out@ == hex_lower(d@.take(i as int)),
        decreases 32 - i,
    {
        let b = d[i];
        assert(d@.take(i + 1).drop_last() =~= d@.take(i as int));
        assert(d@.take(i + 1).last() == b);
        out.push(hex_digit_exec(b / 16));
        out.push(hex_digit_exec(b % 16));
        assert(out@ =~= hex_lower(d@.take(i + 1)));
        i = i + 1;
    }
    assert(d@.take(32) =~= d@);
    string_of(out.as_slice())
}

/// Refused when a release publishes no checksum: the installer is then never
/// run.
pub fn require_checksum(expected: Option<String>) -> (r: Result<String, String>)
    ensures
        match expected {
            Some(e) => r == Ok::<String, String>(e),
            None => r matches Err(m) && m@
                == "No checksum published for this release — update aborted for safety"@,
        },
{
    match expected {
        Some(e) => Ok(e),
        None => Err("No checksum published for this release — update aborted for safety".to_owned()),
    }
}

/// Check downloaded installer `bytes` against the published digest: their
/// SHA-256 in hex must equal the trimmed `expected`, ignoring ASCII case.
pub fn verify_installer(bytes: &[u8], expected: &str) -> (r: Result<(), String>)
    ensures
        r is Ok <==> eq_ignore_case(hex_lower(sha256_digest(bytes@)), trim(expected@)),
        r matches Err(m) ==> m@ == "Integrity check failed (checksum mismatch) — update aborted"@,
{
    let actual = sha256_hex(bytes);
    let a = chars_of(actual.as_str());
    let e = chars_of(expected);
    let et = trim_vec(e.as_slice());
    if eq_ignore_case_exec(a.as_slice(), et.as_slice()) {
        Ok(())
    } else {
        Err("Integrity check failed (checksum mismatch) — update aborted".to_owned())
    }
}

/// The file name a downloaded installer is saved under: the last path
/// segment of its address, or `fluxid-setup.exe` when that is empty.
pub open spec fn installer_name_of(url: Seq<char>) -> Seq<char> {
    let last = split_fields(url, seq!['/']).last();
    if last.len() > 0 {
        last
    } else {
        "fluxid-setup.exe"@
    }
}

pub fn installer_file_name(url: &str) -> (r: String)
    ensures
        r@ == installer_name_of(url@),
{
    let cs = chars_of(url);
    let slash = vec!['/'];
    let parts = split_vec(cs.as_slice(), slash.as_slice());
    proof {
        assert(slash@ =~= seq!['/']);
        lemma_split_fields_nonempty(url@, seq!['/']);
    }
    let last = &parts[parts.len() - 1];
    assert(last@ == split_fields(url@, seq!['/']).last());
    if last.len() > 0 {
        string_of(last.as_slice())
    } else {
        "fluxid-setup.exe".to_owned()
    }
}

} // verus!
