//! The fixed rule set: what one file's text yields, and in which order.

use vstd::prelude::*;
use vstd::utf8::{encode_utf8, is_ascii_chars};
use crate::config::Config;
use crate::engine::{lemma_views_add, lemma_views_push, views, Issue, IssueView, Severity};
use crate::tree::{enumerate, lemma_selected_members, selected_files, Entry};
use crate::text::{
    ascii_bytes, contains, contains_within, decimal, decimal_text, eq_ignore_case,
    find_byte_from, fold_eq, has_match, has_match_within, is_first_byte_from, is_match_at,
    literal_bytes, matches_at, names,
};

verus! {

/// The byte `>` that closes a tag.
pub open spec fn tag_end() -> u8 {
    62u8
}

/// The marker whose absence the viewport rule reports.
pub open spec fn viewport_tag() -> Seq<u8> {
    ascii_bytes("<meta name=\"viewport\""@)
}

/// The word that the dangerous-HTML rule reports.
pub open spec fn dangerous_word() -> Seq<u8> {
    ascii_bytes("dangerouslySetInnerHTML"@)
}

/// The opening of an image tag.
pub open spec fn img_open() -> Seq<u8> {
    ascii_bytes("<img"@)
}

/// The attribute that an image tag should carry.
pub open spec fn alt_attr() -> Seq<u8> {
    ascii_bytes("alt="@)
}

/// The extension names an HTML page (`html`, `htm`, in any case).
pub open spec fn is_page_ext(ext: Seq<u8>) -> bool {
    fold_eq(ext, ascii_bytes("html"@)) || fold_eq(ext, ascii_bytes("htm"@))
}

/// The extension names a script (`js`, `ts`, `tsx`, `jsx`, in any case).
pub open spec fn is_script_ext(ext: Seq<u8>) -> bool {
    fold_eq(ext, ascii_bytes("js"@)) || fold_eq(ext, ascii_bytes("ts"@)) || fold_eq(
        ext,
        ascii_bytes("tsx"@),
    ) || fold_eq(ext, ascii_bytes("jsx"@))
}

/// The extension names a file that may hold markup (`html`, `htm`, `jsx`,
/// `tsx`, in any case).
pub open spec fn is_markup_ext(ext: Seq<u8>) -> bool {
    is_page_ext(ext) || fold_eq(ext, ascii_bytes("jsx"@)) || fold_eq(ext, ascii_bytes("tsx"@))
}

/// A text of `len` bytes is larger than `large_file_kb` KiB.
pub open spec fn exceeds_kb(len: nat, large_file_kb: u32) -> bool {
    len > large_file_kb as nat * 1024
}

/// `len` bytes in KiB, rounded to the nearest whole number, a half to the
/// even neighbour.
pub open spec fn rounded_kb(len: nat) -> nat {
    let q = len / 1024;
    let r = len % 1024;
    if r < 512 {
        q
    } else if r > 512 {
        q + 1
    } else if q % 2 == 0 {
        q
    } else {
        q + 1
    }
}

/// The tag of the viewport rule's finding.
pub open spec fn viewport_id() -> Seq<char> {
    "a11y::viewport_missing"@
}

/// The tag of the large-file rule's finding.
pub open spec fn large_file_id() -> Seq<char> {
    "perf::large_file"@
}

/// The tag of the dangerous-HTML rule's finding.
pub open spec fn dangerous_html_id() -> Seq<char> {
    "sec::dangerous_html"@
}

/// The tag of the missing-alt rule's finding.
pub open spec fn img_missing_alt_id() -> Seq<char> {
    "a11y::img_missing_alt"@
}

/// The finding of the viewport rule for the file at `path`.
pub open spec fn viewport_finding(path: Seq<char>) -> IssueView {
    IssueView {
        id: viewport_id(),
        severity: Severity::Warning,
        message: path + ": missing <meta name=\"viewport\">"@,
    }
}

/// The finding of the large-file rule for a text of `len` bytes.
pub open spec fn large_finding(path: Seq<char>, len: nat) -> IssueView {
    IssueView {
        id: large_file_id(),
        severity: Severity::Warning,
        message: path + ": large file (~"@ + decimal_text(rounded_kb(len)) + " KB)"@,
    }
}

/// The finding of the dangerous-HTML rule.
pub open spec fn dangerous_finding(path: Seq<char>) -> IssueView {
    IssueView {
        id: dangerous_html_id(),
        severity: Severity::High,
        message: path + ": usage of dangerouslySetInnerHTML (possible XSS)"@,
    }
}

/// The finding of the missing-alt rule, one per offending tag.
pub open spec fn alt_finding(path: Seq<char>) -> IssueView {
    IssueView {
        id: img_missing_alt_id(),
        severity: Severity::Warning,
        message: path + ": <img> tag without alt attribute"@,
    }
}

/// An image tag opens at position `i`, is closed by a later `>`, and holds
/// no `alt=` between its opening and that `>`, both included.
pub open spec fn missing_alt_at(content: Seq<u8>, i: int) -> bool {
    &&& matches_at(content, img_open(), i)
    &&& exists|e: int| #[trigger]
        is_first_byte_from(content, tag_end(), i, e) && !contains_within(
            content,
            alt_attr(),
            i,
            e + 1,
        )
}

/// How many positions before `n` open an image tag that lacks `alt=`.
pub open spec fn missing_alt_count(content: Seq<u8>, n: int) -> nat
    decreases n,
{
    if n <= 0 {
        0
    } else {
        missing_alt_count(content, n - 1) + if missing_alt_at(content, n - 1) {
            1nat
        } else {
            0nat
        }
    }
}

/// What the viewport rule contributes.
pub open spec fn viewport_part(path: Seq<char>, ext: Seq<u8>, content: Seq<u8>) -> Seq<
    IssueView,
> {
    if is_page_ext(ext) && !contains(content, viewport_tag()) {
        seq![viewport_finding(path)]
    } else {
        Seq::empty()
    }
}

/// What the large-file rule contributes.
pub open spec fn large_part(
    path: Seq<char>,
    ext: Seq<u8>,
    content: Seq<u8>,
    large_file_kb: u32,
) -> Seq<IssueView> {
    if is_script_ext(ext) && exceeds_kb(content.len(), large_file_kb) {
        seq![large_finding(path, content.len())]
    } else {
        Seq::empty()
    }
}

/// What the dangerous-HTML rule contributes, whatever the extension.
pub open spec fn dangerous_part(path: Seq<char>, content: Seq<u8>) -> Seq<IssueView> {
    if contains(content, dangerous_word()) {
        seq![dangerous_finding(path)]
    } else {
        Seq::empty()
    }
}

/// The first `count` findings of the missing-alt rule.
pub open spec fn alt_findings(path: Seq<char>, count: nat) -> Seq<IssueView> {
    Seq::new(count, |k: int| alt_finding(path))
}

/// What the missing-alt rule contributes.
pub open spec fn alt_part(path: Seq<char>, ext: Seq<u8>, content: Seq<u8>) -> Seq<IssueView> {
    if is_markup_ext(ext) {
        alt_findings(path, missing_alt_count(content, content.len() as int))
    } else {
        Seq::empty()
    }
}

/// The findings for a text file, rule by rule in the fixed order: viewport,
/// large file, dangerous HTML, then one per image tag without `alt=`, left
/// to right. `ext` and `content` are UTF-8 bytes.
pub open spec fn rule_issues(
    path: Seq<char>,
    ext: Seq<u8>,
    content: Seq<u8>,
    large_file_kb: u32,
) -> Seq<IssueView> {
    viewport_part(path, ext, content) + large_part(path, ext, content, large_file_kb)
        + dangerous_part(path, content) + alt_part(path, ext, content)
}

/// Tests an extension against a lower-case ASCII name, ignoring case.
fn ext_is(ext: &[u8], name: &str) -> (r: bool)
    requires
        is_ascii_chars(name@),
    ensures
        r == fold_eq(ext@, ascii_bytes(name@)),
{
    eq_ignore_case(ext, literal_bytes(name))
}

/// Tests whether the extension names an HTML page.
pub fn page_ext(ext: &[u8]) -> (r: bool)
    ensures
        r == is_page_ext(ext@),
{
    proof {
        reveal_strlit("html");
        reveal_strlit("htm");
    }
    ext_is(ext, "html") || ext_is(ext, "htm")
}

/// Tests whether the extension names a script.
pub fn script_ext(ext: &[u8]) -> (r: bool)
    ensures
        r == is_script_ext(ext@),
{
    proof {
        reveal_strlit("js");
        reveal_strlit("ts");
        reveal_strlit("tsx");
        reveal_strlit("jsx");
    }
    ext_is(ext, "js") || ext_is(ext, "ts") || ext_is(ext, "tsx") || ext_is(ext, "jsx")
}

/// Tests whether the extension names a file that may hold markup.
pub fn markup_ext(ext: &[u8]) -> (r: bool)
    ensures
        r == is_markup_ext(ext@),
{
    proof {
        reveal_strlit("jsx");
        reveal_strlit("tsx");
    }
    page_ext(ext) || ext_is(ext, "jsx") || ext_is(ext, "tsx")
}

/// Rounds a byte length to whole KiB, a half to the even neighbour.
pub fn round_kb(len: u64) -> (kb: u64)
    ensures
        kb == rounded_kb(len as nat),
{
    let q: u64 = len / 1024;
    let r: u64 = len % 1024;
    if r < 512 {
        q
    } else if r > 512 {
        q + 1
    } else if q % 2 == 0 {
        q
    } else {
        q + 1
    }
}

/// Builds an issue from its parts.
fn finding(id: &str, severity: Severity, path: &str, tail: &str) -> (issue: Issue)
    ensures
        issue@ == (IssueView { id: id@, severity, message: path@ + tail@ }),
{
    let mut message = String::from_str(path);
    message.append(tail);
    Issue { id: String::from_str(id), severity, message }
}

/// Tests whether an image tag that lacks `alt=` opens at position `i`.
pub fn alt_missing_at(content: &[u8], i: usize) -> (r: bool)
    ensures
        r == missing_alt_at(content@, i as int),
{
    proof {
        reveal_strlit("<img");
        reveal_strlit("alt=");
    }
    if !is_match_at(content, literal_bytes("<img"), i) {
        return false;
    }
    match find_byte_from(content, 62u8, i) {
        None => {
            assert(!missing_alt_at(content@, i as int)) by {
                assert forall|e: int| !is_first_byte_from(content@, tag_end(), i as int, e) by {}
            }
            false
        },
        Some(end) => {
            assert(is_first_byte_from(content@, tag_end(), i as int, end as int));
            assert(end < content.len());
            let found = has_match_within(content, literal_bytes("alt="), i, end + 1);
            proof {
                assert forall|e: int|
                    is_first_byte_from(content@, tag_end(), i as int, e) implies e == end by {
                    if e < end {
                        assert(content@[e] != tag_end());
                    } else if e > end {
                        assert(content@[end as int] != tag_end());
                    }
                }
                assert(is_first_byte_from(content@, tag_end(), i as int, end as int));
            }
            !found
        },
    }
}

/// Applies the rule set to the decoded text of one file.
///
/// `path` is the file's path as it is to appear in messages, `ext` its
/// extension without the dot (empty when it has none).
pub fn check_content(path: &str, ext: &str, content: &str, large_file_kb: u32) -> (issues: Vec<
    Issue,
>)
    ensures
        views(issues@) == rule_issues(
            path@,
            encode_utf8(ext@),
            encode_utf8(content@),
            large_file_kb,
        ),
{
    let kind = ext.as_bytes();
    let text = content.as_bytes();
    let mut issues: Vec<Issue> = Vec::new();
    proof {
        reveal_strlit("<meta name=\"viewport\"");
        reveal_strlit("dangerouslySetInnerHTML");
    }
    if page_ext(kind) && !has_match(text, literal_bytes("<meta name=\"viewport\"")) {
        issues.push(
            finding(
                "a11y::viewport_missing",
                Severity::Warning,
                path,
                ": missing <meta name=\"viewport\">",
            ),
        );
    }
    assert(views(issues@) =~= viewport_part(path@, kind@, text@));
    let ghost after_viewport = views(issues@);
    if script_ext(kind) && text.len() as u64 > large_file_kb as u64 * 1024 {
        let size = decimal(round_kb(text.len() as u64));
        let mut tail = String::from_str(": large file (~");
        tail.append(size.as_str());
        tail.append(" KB)");
        let issue = finding("perf::large_file", Severity::Warning, path, tail.as_str());
        proof {
            assert(issue@.message =~= large_finding(path@, text@.len()).message);
            lemma_views_push(issues@, issue);
        }
        issues.push(issue);
    }
    assert(views(issues@) =~= after_viewport + large_part(path@, kind@, text@, large_file_kb));
    let ghost after_large = views(issues@);
    if has_match(text, literal_bytes("dangerouslySetInnerHTML")) {
        let issue = finding(
            "sec::dangerous_html",
            Severity::High,
            path,
            ": usage of dangerouslySetInnerHTML (possible XSS)",
        );
        proof {
            lemma_views_push(issues@, issue);
        }
        issues.push(issue);
    }
    assert(views(issues@) =~= after_large + dangerous_part(path@, text@));
    let ghost fixed = views(issues@);
    if markup_ext(kind) {
        let mut i: usize = 0;
        assert(views(issues@) =~= fixed + alt_findings(path@, missing_alt_count(text@, 0)));
        while i < text.len()
            invariant
                i <= text.len(),
                views(issues@) == fixed + alt_findings(
                    path@,
                    missing_alt_count(text@, i as int),
                ),
            decreases text.len() - i,
        {
            if alt_missing_at(text, i) {
                let issue = finding(
                    "a11y::img_missing_alt",
                    Severity::Warning,
                    path,
                    ": <img> tag without alt attribute",
                );
                proof {
                    lemma_views_push(issues@, issue);
                    assert(views(issues@.push(issue)) =~= fixed + alt_findings(
                        path@,
                        missing_alt_count(text@, i + 1),
                    ));
                }
                issues.push(issue);
            }
            i += 1;
        }
    }
    assert(views(issues@) =~= fixed + alt_part(path@, kind@, text@));
    issues
}

/// The text that lossy UTF-8 decoding makes of a byte string: valid
/// sequences decoded, each invalid one replaced by U+FFFD.
pub uninterp spec fn lossy_text(bytes: Seq<u8>) -> Seq<char>;

/// Every byte is an ASCII character.
pub open spec fn all_ascii(bytes: Seq<u8>) -> bool {
    forall|i: int| 0 <= i < bytes.len() ==> bytes[i] < 128u8
}

/// The UTF-8 bytes of the text that a file's raw content decodes to: the
/// content itself where it is plain ASCII, else the bytes of its lossy
/// decoding.
pub open spec fn decoded_bytes(bytes: Seq<u8>) -> Seq<u8> {
    if all_ascii(bytes) {
        bytes
    } else {
        encode_utf8(lossy_text(bytes))
    }
}

/// Decodes bytes as UTF-8 with `String::from_utf8_lossy`, which never fails.
/// Trusted: the result is the text that this decoding gives for these bytes
/// and depends on nothing else; and plain ASCII, being valid UTF-8, comes
/// back byte for byte.
#[verifier::external_body]
fn decode_lossy(bytes: &[u8]) -> (text: String)
    ensures
        text@ == lossy_text(bytes@),
        all_ascii(bytes@) ==> encode_utf8(text@) == bytes@,
{
    String::from_utf8_lossy(bytes).into_owned()
}

/// The hard ceiling: a file of `size` bytes is larger than ten times the
/// large-file threshold.
pub open spec fn over_ceiling(size: Option<u64>, large_file_kb: u32) -> bool {
    match size {
        Some(s) => s > large_file_kb as nat * 1024 * 10,
        None => false,
    }
}

/// The content holds a NUL byte, which marks a binary file.
pub open spec fn holds_nul(bytes: Seq<u8>) -> bool {
    exists|i: int| 0 <= i < bytes.len() && bytes[i] == 0u8
}

/// What evaluating one file gives: `None` where its content could not be
/// read; else its findings, none for a file over the hard ceiling or with a
/// NUL byte.
pub open spec fn file_outcome(e: Entry, large_file_kb: u32) -> Option<Seq<IssueView>> {
    if over_ceiling(e.size, large_file_kb) {
        Some(Seq::empty())
    } else {
        match e.bytes {
            None => None,
            Some(bytes) => if holds_nul(bytes@) {
                Some(Seq::empty())
            } else {
                Some(
                    rule_issues(
                        e.path@,
                        encode_utf8(e.ext@),
                        decoded_bytes(bytes@),
                        large_file_kb,
                    ),
                )
            },
        }
    }
}

/// What one file adds to a scan: its findings, nothing where it could not
/// be read.
pub open spec fn contribution(e: Entry, large_file_kb: u32) -> Seq<IssueView> {
    match file_outcome(e, large_file_kb) {
        Some(found) => found,
        None => Seq::empty(),
    }
}

/// The findings of the listed files, file after file.
pub open spec fn issues_of(listing: Seq<Entry>, files: Seq<usize>, large_file_kb: u32) -> Seq<
    IssueView,
>
    decreases files.len(),
{
    if files.len() == 0 {
        Seq::empty()
    } else {
        issues_of(listing, files.drop_last(), large_file_kb) + contribution(
            listing[files.last() as int],
            large_file_kb,
        )
    }
}

/// The result of a scan: the findings of every regular file that the walk
/// reaches, in listing order.
pub open spec fn scan_issues(
    listing: Seq<Entry>,
    ignore: Seq<Seq<char>>,
    large_file_kb: u32,
) -> Seq<IssueView> {
    issues_of(listing, selected_files(listing, ignore), large_file_kb)
}

/// Tests a size on disk against the hard ceiling.
pub fn exceeds_ceiling(size: Option<u64>, large_file_kb: u32) -> (r: bool)
    ensures
        r == over_ceiling(size, large_file_kb),
{
    match size {
        Some(s) => s > (large_file_kb as u64) * 1024 * 10,
        None => false,
    }
}

/// Evaluates one file: size guard, binary guard, lossy decoding, then the
/// rule set. Returns `None` exactly where the file is within the ceiling and
/// its content could not be read.
pub fn run_rules_for_file(entry: &Entry, large_file_kb: u32) -> (found: Option<Vec<Issue>>)
    ensures
        match (found, file_outcome(*entry, large_file_kb)) {
            (Some(issues), Some(expected)) => views(issues@) == expected,
            (None, None) => true,
            _ => false,
        },
{
    if exceeds_ceiling(entry.size, large_file_kb) {
        let none: Vec<Issue> = Vec::new();
        assert(views(none@) =~= Seq::empty());
        return Some(none);
    }
    match &entry.bytes {
        None => None,
        Some(bytes) => {
            if find_byte_from(bytes.as_slice(), 0u8, 0).is_some() {
                let none: Vec<Issue> = Vec::new();
                assert(views(none@) =~= Seq::empty());
                return Some(none);
            }
            let text = decode_lossy(bytes.as_slice());
            Some(
                check_content(
                    entry.path.as_str(),
                    entry.ext.as_str(),
                    text.as_str(),
                    large_file_kb,
                ),
            )
        },
    }
}

/// Why a scan could not start.
#[derive(Debug, Clone, Copy, PartialEq, Eq, Structural)]
pub enum ScanError {
    /// The listing is empty: there is nothing at the root path.
    RootMissing,
    /// The root of the listing is not a directory.
    RootNotDirectory,
}

/// What is wrong with the root of a listing, if anything. The root is the
/// first entry.
pub open spec fn root_fault(listing: Seq<Entry>) -> Option<ScanError> {
    if listing.len() == 0 {
        Some(ScanError::RootMissing)
    } else if !listing[0].is_dir {
        Some(ScanError::RootNotDirectory)
    } else {
        None
    }
}

/// Scans a project tree given as a pre-order listing: walks it with the
/// configured ignore list, evaluates every file reached and gathers the
/// findings, each file's in their own order.
///
/// Fails only where the root is missing or is not a directory; a file that
/// cannot be read, is oversized or binary adds nothing and fails nothing.
pub fn run_all(listing: &Vec<Entry>, config: &Config) -> (result: Result<Vec<Issue>, ScanError>)
    ensures
        match result {
            Ok(issues) => root_fault(listing@).is_none() && views(issues@) == scan_issues(
                listing@,
                config.effective_ignore(),
                config.effective_large_file_kb(),
            ),
            Err(fault) => root_fault(listing@) == Some(fault),
        },
{
    if listing.len() == 0 {
        return Err(ScanError::RootMissing);
    }
    if !listing[0].is_dir {
        return Err(ScanError::RootNotDirectory);
    }
    let ignore = config.ignore_list();
    let large_file_kb = config.large_file_kb();
    let files = enumerate(listing, &ignore);
    let total: usize = listing.len();
    let mut issues: Vec<Issue> = Vec::new();
    let mut k: usize = 0;
    assert(files@.take(0) =~= Seq::empty());
    assert(views(issues@) =~= Seq::empty());
    while k < files.len()
        invariant
            k <= files.len(),
            total == listing@.len(),
            files@ == selected_files(listing@, names(ignore@)),
            views(issues@) == issues_of(listing@, files@.take(k as int), large_file_kb),
        decreases files.len() - k,
    {
        proof {
            lemma_selected_members(listing@, names(ignore@), listing@.len() as int, k as int);
        }
        let ghost before = issues@;
        match run_rules_for_file(&listing[files[k]], large_file_kb) {
            Some(mut found) => {
                proof {
                    lemma_views_add(before, found@);
                }
                issues.append(&mut found);
            },
            None => {
                assert(views(before) + Seq::<IssueView>::empty() =~= views(before));
            },
        }
        proof {
            assert(files@.take(k + 1).drop_last() =~= files@.take(k as int));
            assert(files@.take(k + 1).last() == files@[k as int]);
        }
        k += 1;
    }
    assert(files@.take(k as int) =~= files@);
    Ok(issues)
}

} // verus!
