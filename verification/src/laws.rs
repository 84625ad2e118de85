//! Laws of the scan, proved from the definitions of the rules and the walk.

use vstd::prelude::*;
use crate::engine::{IssueView, Severity};
use crate::rules::{
    alt_finding, alt_findings, alt_part, contribution, dangerous_finding, dangerous_html_id,
    dangerous_part, dangerous_word, decoded_bytes, exceeds_kb, file_outcome, holds_nul,
    img_missing_alt_id, img_open, is_markup_ext, is_page_ext, is_script_ext, issues_of,
    large_file_id, large_finding, large_part, missing_alt_count, over_ceiling, rule_issues,
    scan_issues, viewport_finding, viewport_id, viewport_part, viewport_tag,
};
use crate::text::{ascii_bytes, contains, matches_at};
use crate::tree::{
    beneath, covers, is_hidden_name, lemma_selected_members, prunes, pruned, selected,
    selected_files, selected_upto, skipped, Entry,
};

verus! {

/// How many of `issues` carry the tag `id`.
pub open spec fn count_id(issues: Seq<IssueView>, id: Seq<char>) -> nat
    decreases issues.len(),
{
    if issues.len() == 0 {
        0
    } else {
        count_id(issues.drop_last(), id) + if issues.last().id == id {
            1nat
        } else {
            0nat
        }
    }
}

/// Two entries agree in everything that the walk looks at.
pub open spec fn same_place(a: Entry, b: Entry) -> bool {
    a.depth == b.depth && a.name == b.name && a.is_dir == b.is_dir && a.is_file == b.is_file
}

/// Counting over a concatenation adds the counts.
pub proof fn lemma_count_add(a: Seq<IssueView>, b: Seq<IssueView>, id: Seq<char>)
    ensures
        count_id(a + b, id) == count_id(a, id) + count_id(b, id),
    decreases b.len(),
{
    if b.len() == 0 {
        assert(a + b =~= a);
    } else {
        assert((a + b).drop_last() =~= a + b.drop_last());
        lemma_count_add(a, b.drop_last(), id);
    }
}

/// A single issue counts once under its own tag and not under any other.
pub proof fn lemma_count_one(issue: IssueView, id: Seq<char>)
    ensures
        count_id(seq![issue], id) == if issue.id == id {
            1nat
        } else {
            0nat
        },
{
    assert(seq![issue].drop_last() =~= Seq::<IssueView>::empty());
    assert(count_id(seq![issue].drop_last(), id) == 0);
}

/// The four tags of the rule set differ from one another.
pub proof fn lemma_tags_differ()
    ensures
        viewport_id() != large_file_id(),
        viewport_id() != dangerous_html_id(),
        viewport_id() != img_missing_alt_id(),
        large_file_id() != dangerous_html_id(),
        large_file_id() != img_missing_alt_id(),
        dangerous_html_id() != img_missing_alt_id(),
{
    reveal_strlit("a11y::viewport_missing");
    reveal_strlit("perf::large_file");
    reveal_strlit("sec::dangerous_html");
    reveal_strlit("a11y::img_missing_alt");
    assert(viewport_id().len() == 22);
    assert(large_file_id().len() == 16);
    assert(dangerous_html_id().len() == 19);
    assert(img_missing_alt_id().len() == 21);
}

/// The missing-alt findings all carry the missing-alt tag.
pub proof fn lemma_count_alt(path: Seq<char>, n: nat, id: Seq<char>)
    ensures
        count_id(alt_findings(path, n), id) == if id == img_missing_alt_id() {
            n
        } else {
            0nat
        },
    decreases n,
{
    if n > 0 {
        assert(alt_findings(path, n).drop_last() =~= alt_findings(path, (n - 1) as nat));
        lemma_count_alt(path, (n - 1) as nat, id);
    }
}

/// The count of a tag among a file's findings is the sum of its counts in
/// the four rules' parts.
pub proof fn lemma_count_by_rule(
    path: Seq<char>,
    ext: Seq<u8>,
    content: Seq<u8>,
    large_file_kb: u32,
    id: Seq<char>,
)
    ensures
        count_id(rule_issues(path, ext, content, large_file_kb), id) == count_id(
            viewport_part(path, ext, content),
            id,
        ) + count_id(large_part(path, ext, content, large_file_kb), id) + count_id(
            dangerous_part(path, content),
            id,
        ) + count_id(alt_part(path, ext, content), id),
{
    let a = viewport_part(path, ext, content);
    let b = large_part(path, ext, content, large_file_kb);
    let c = dangerous_part(path, content);
    let d = alt_part(path, ext, content);
    lemma_count_add(a, b, id);
    lemma_count_add(a + b, c, id);
    lemma_count_add(a + b + c, d, id);
}

/// The count of a tag in each rule's part: one or none for the first
/// three rules under their own tag, the number of offending image tags for
/// the fourth, and none under a foreign tag.
proof fn lemma_part_counts(
    path: Seq<char>,
    ext: Seq<u8>,
    content: Seq<u8>,
    large_file_kb: u32,
    id: Seq<char>,
)
    ensures
        count_id(viewport_part(path, ext, content), id) == if id == viewport_id()
            && is_page_ext(ext) && !contains(content, viewport_tag()) {
            1nat
        } else {
            0nat
        },
        count_id(large_part(path, ext, content, large_file_kb), id) == if id == large_file_id()
            && is_script_ext(ext) && exceeds_kb(content.len(), large_file_kb) {
            1nat
        } else {
            0nat
        },
        count_id(dangerous_part(path, content), id) == if id == dangerous_html_id()
            && contains(content, dangerous_word()) {
            1nat
        } else {
            0nat
        },
        count_id(alt_part(path, ext, content), id) == if id == img_missing_alt_id()
            && is_markup_ext(ext) {
            missing_alt_count(content, content.len() as int)
        } else {
            0nat
        },
{
    lemma_count_one(viewport_finding(path), id);
    lemma_count_one(large_finding(path, content.len()), id);
    lemma_count_one(dangerous_finding(path), id);
    lemma_count_alt(path, missing_alt_count(content, content.len() as int), id);
}

/// Nothing beneath a directory whose name is on the ignore list is
/// selected by the walk, so no finding is made there. The root of the walk
/// is not such a directory, whatever its name.
pub proof fn lemma_ignored_directory_hides_subtree(
    listing: Seq<Entry>,
    ignore: Seq<Seq<char>>,
    j: int,
    i: int,
)
    requires
        listing.len() <= usize::MAX,
        beneath(listing, j, i),
        listing[j].is_dir,
        listing[j].depth != 0,
        listing[j].name.is_some(),
        ignore.contains(listing[j].name.unwrap()@),
    ensures
        !selected(listing, ignore, i),
        forall|k: int|
            0 <= k < selected_files(listing, ignore).len() ==> selected_files(listing, ignore)[k]
                != i,
{
    lemma_skipped_directory_hides_subtree(listing, ignore, j, i);
}

/// Nothing beneath a directory whose name begins with a dot is selected by
/// the walk, listed or not, so no finding is made there. The root of the
/// walk is not such a directory, whatever its name.
pub proof fn lemma_hidden_directory_hides_subtree(
    listing: Seq<Entry>,
    ignore: Seq<Seq<char>>,
    j: int,
    i: int,
)
    requires
        listing.len() <= usize::MAX,
        beneath(listing, j, i),
        listing[j].is_dir,
        listing[j].depth != 0,
        listing[j].name.is_some(),
        is_hidden_name(listing[j].name.unwrap()@),
    ensures
        !selected(listing, ignore, i),
        forall|k: int|
            0 <= k < selected_files(listing, ignore).len() ==> selected_files(listing, ignore)[k]
                != i,
{
    lemma_skipped_directory_hides_subtree(listing, ignore, j, i);
}

/// Nothing beneath a skipped directory is selected by the walk.
pub proof fn lemma_skipped_directory_hides_subtree(
    listing: Seq<Entry>,
    ignore: Seq<Seq<char>>,
    j: int,
    i: int,
)
    requires
        listing.len() <= usize::MAX,
        beneath(listing, j, i),
        listing[j].is_dir,
        skipped(listing[j], ignore),
    ensures
        pruned(listing, ignore, i),
        !selected(listing, ignore, i),
        forall|k: int|
            0 <= k < selected_files(listing, ignore).len() ==> selected_files(listing, ignore)[k]
                != i,
{
    assert(prunes(listing, ignore, j, i + 1));
    assert forall|k: int| 0 <= k < selected_files(listing, ignore).len() implies selected_files(
        listing,
        ignore,
    )[k] != i by {
        lemma_selected_members(listing, ignore, listing.len() as int, k);
    }
}

/// Among the findings for a text, the viewport finding occurs exactly once
/// where the file is an HTML page whose text lacks the viewport tag, and not
/// at all otherwise: the tag's presence switches the finding off.
pub proof fn lemma_viewport_exactly_when_missing(
    path: Seq<char>,
    ext: Seq<u8>,
    content: Seq<u8>,
    large_file_kb: u32,
)
    ensures
        count_id(rule_issues(path, ext, content, large_file_kb), viewport_id())
            == if is_page_ext(ext) && !contains(content, viewport_tag()) {
            1nat
        } else {
            0nat
        },
{
    let id = viewport_id();
    lemma_tags_differ();
    lemma_count_by_rule(path, ext, content, large_file_kb, id);
    lemma_part_counts(path, ext, content, large_file_kb, id);
}

/// Among the findings for a text, the large-file finding occurs exactly
/// once where the file is a script whose text is longer than the threshold in
/// KiB, and not at all for one at or below it.
pub proof fn lemma_large_file_exactly_above_threshold(
    path: Seq<char>,
    ext: Seq<u8>,
    content: Seq<u8>,
    large_file_kb: u32,
)
    ensures
        count_id(rule_issues(path, ext, content, large_file_kb), large_file_id())
            == if is_script_ext(ext) && content.len() > large_file_kb * 1024 {
            1nat
        } else {
            0nat
        },
{
    let id = large_file_id();
    lemma_tags_differ();
    lemma_count_by_rule(path, ext, content, large_file_kb, id);
    lemma_part_counts(path, ext, content, large_file_kb, id);
}

/// A text that holds the dangerous word yields the dangerous-HTML finding,
/// of high severity, exactly once, whatever the extension; one that does not
/// hold it yields none.
pub proof fn lemma_dangerous_html_whatever_extension(
    path: Seq<char>,
    ext: Seq<u8>,
    content: Seq<u8>,
    large_file_kb: u32,
)
    ensures
        dangerous_finding(path).severity == Severity::High,
        contains(content, dangerous_word()) ==> rule_issues(
            path,
            ext,
            content,
            large_file_kb,
        ).contains(dangerous_finding(path)),
        count_id(rule_issues(path, ext, content, large_file_kb), dangerous_html_id())
            == if contains(content, dangerous_word()) {
            1nat
        } else {
            0nat
        },
{
    let id = dangerous_html_id();
    lemma_tags_differ();
    lemma_count_by_rule(path, ext, content, large_file_kb, id);
    lemma_part_counts(path, ext, content, large_file_kb, id);
    if contains(content, dangerous_word()) {
        let a = viewport_part(path, ext, content);
        let b = large_part(path, ext, content, large_file_kb);
        let all = rule_issues(path, ext, content, large_file_kb);
        assert(all[(a.len() + b.len()) as int] == dangerous_finding(path));
    }
}

/// In a file that may hold markup, the missing-alt findings are as many as
/// the image tags that are closed and hold no `alt=`; in any other file
/// there is none.
pub proof fn lemma_one_alt_finding_per_offending_tag(
    path: Seq<char>,
    ext: Seq<u8>,
    content: Seq<u8>,
    large_file_kb: u32,
)
    ensures
        count_id(rule_issues(path, ext, content, large_file_kb), img_missing_alt_id())
            == if is_markup_ext(ext) {
            missing_alt_count(content, content.len() as int)
        } else {
            0nat
        },
{
    let id = img_missing_alt_id();
    lemma_tags_differ();
    lemma_count_by_rule(path, ext, content, large_file_kb, id);
    lemma_part_counts(path, ext, content, large_file_kb, id);
}

/// A file within the hard ceiling that could be read and holds no NUL byte
/// yields what the rules find in its decoded text, so the laws on texts hold
/// of every such file.
pub proof fn lemma_text_file_yields_rule_findings(e: Entry, large_file_kb: u32)
    requires
        !over_ceiling(e.size, large_file_kb),
        e.bytes.is_some(),
        !holds_nul(e.bytes.unwrap()@),
    ensures
        contribution(e, large_file_kb) == rule_issues(
            e.path@,
            vstd::utf8::encode_utf8(e.ext@),
            decoded_bytes(e.bytes.unwrap()@),
            large_file_kb,
        ),
{
}

/// A file over the hard ceiling yields no finding, whatever it holds.
pub proof fn lemma_oversized_file_yields_nothing(e: Entry, large_file_kb: u32)
    requires
        e.size.is_some(),
        e.size.unwrap() > large_file_kb * 10 * 1024,
    ensures
        file_outcome(e, large_file_kb) == Some(Seq::<IssueView>::empty()),
        contribution(e, large_file_kb) == Seq::<IssueView>::empty(),
{
    assert(over_ceiling(e.size, large_file_kb));
}

/// A file whose content holds a NUL byte yields no finding, whatever its
/// extension and the rest of its content.
pub proof fn lemma_binary_file_yields_nothing(e: Entry, large_file_kb: u32)
    requires
        e.bytes.is_some(),
        holds_nul(e.bytes.unwrap()@),
    ensures
        file_outcome(e, large_file_kb) == Some(Seq::<IssueView>::empty()),
        contribution(e, large_file_kb) == Seq::<IssueView>::empty(),
{
}

/// How many positions before `n` open an image tag.
pub open spec fn img_count(content: Seq<u8>, n: int) -> nat
    decreases n,
{
    if n <= 0 {
        0
    } else {
        img_count(content, n - 1) + if matches_at(content, img_open(), n - 1) {
            1nat
        } else {
            0nat
        }
    }
}

/// The image tags that lack `alt=` are never more than the image tags.
pub proof fn lemma_offending_tags_at_most_all_tags(content: Seq<u8>, n: int)
    ensures
        missing_alt_count(content, n) <= img_count(content, n),
    decreases n,
{
    if n > 0 {
        lemma_offending_tags_at_most_all_tags(content, n - 1);
    }
}

/// The extensions named in lower case belong to their classes: `html` and
/// `htm` are pages, `js`, `ts`, `jsx` and `tsx` scripts, and `html`, `htm`,
/// `jsx` and `tsx` may hold markup.
pub proof fn lemma_named_extensions()
    ensures
        is_page_ext(ascii_bytes("html"@)),
        is_page_ext(ascii_bytes("htm"@)),
        is_script_ext(ascii_bytes("js"@)),
        is_script_ext(ascii_bytes("ts"@)),
        is_script_ext(ascii_bytes("jsx"@)),
        is_script_ext(ascii_bytes("tsx"@)),
        is_markup_ext(ascii_bytes("html"@)),
        is_markup_ext(ascii_bytes("htm"@)),
        is_markup_ext(ascii_bytes("jsx"@)),
        is_markup_ext(ascii_bytes("tsx"@)),
{
}

/// Entries `k` of two listings agree in what the walk looks at.
pub open spec fn alike(a: Seq<Entry>, b: Seq<Entry>, k: int) -> bool {
    same_place(a[k], b[k])
}

/// Two listings agree, entry by entry, in what the walk looks at.
pub open spec fn same_shape(a: Seq<Entry>, b: Seq<Entry>) -> bool {
    a.len() == b.len() && forall|k: int| 0 <= k < a.len() ==> #[trigger] alike(a, b, k)
}

/// A stretch of entries that lies deeper than entry `j` in one listing does
/// so in any listing of the same shape.
proof fn lemma_covers_carries(a: Seq<Entry>, b: Seq<Entry>, j: int, m: int)
    requires
        same_shape(a, b),
        0 <= j < m <= a.len(),
        covers(a, j, m),
    ensures
        covers(b, j, m),
{
    assert forall|k: int| j < k < m implies (#[trigger] b[k]).depth > b[j].depth by {
        assert(alike(a, b, k));
        assert(alike(a, b, j));
        assert(a[k].depth > a[j].depth);
    }
}

/// A directory that prunes a stretch of one listing prunes it in any
/// listing of the same shape.
proof fn lemma_prunes_carries(a: Seq<Entry>, b: Seq<Entry>, ignore: Seq<Seq<char>>, j: int, m: int)
    requires
        same_shape(a, b),
        prunes(a, ignore, j, m),
    ensures
        prunes(b, ignore, j, m),
{
    assert(alike(a, b, j));
    lemma_covers_carries(a, b, j, m);
}

/// A file selected in one listing is selected in any listing of the same
/// shape.
proof fn lemma_selected_carries(a: Seq<Entry>, b: Seq<Entry>, ignore: Seq<Seq<char>>, i: int)
    requires
        same_shape(a, b),
        selected(a, ignore, i),
    ensures
        selected(b, ignore, i),
{
    assert(alike(a, b, i));
    assert forall|k: int| 0 <= k < b.len() implies #[trigger] alike(b, a, k) by {
        assert(alike(a, b, k));
    }
    if pruned(b, ignore, i) {
        let j = choose|j: int| #[trigger] prunes(b, ignore, j, i + 1);
        lemma_prunes_carries(b, a, ignore, j, i + 1);
        assert(false);
    }
}

/// Listings of one shape have the same files selected.
pub proof fn lemma_same_shape_same_walk(
    a: Seq<Entry>,
    b: Seq<Entry>,
    ignore: Seq<Seq<char>>,
    n: int,
)
    requires
        same_shape(a, b),
    ensures
        selected_upto(a, ignore, n) == selected_upto(b, ignore, n),
    decreases n,
{
    if n > 0 {
        lemma_same_shape_same_walk(a, b, ignore, n - 1);
        assert forall|k: int| 0 <= k < b.len() implies #[trigger] alike(b, a, k) by {
            assert(alike(a, b, k));
        }
        if selected(a, ignore, n - 1) {
            lemma_selected_carries(a, b, ignore, n - 1);
        }
        if selected(b, ignore, n - 1) {
            lemma_selected_carries(b, a, ignore, n - 1);
        }
    }
}

/// The findings of a list of files depend on the entries of those files
/// alone.
proof fn lemma_issues_of_other_files(
    a: Seq<Entry>,
    b: Seq<Entry>,
    files: Seq<usize>,
    large_file_kb: u32,
    i: int,
)
    requires
        a.len() == b.len(),
        forall|k: int| 0 <= k < a.len() && k != i ==> a[k] == b[k],
        forall|k: int| 0 <= k < files.len() ==> 0 <= #[trigger] files[k] < a.len() && files[k] != i,
    ensures
        issues_of(a, files, large_file_kb) == issues_of(b, files, large_file_kb),
    decreases files.len(),
{
    if files.len() > 0 {
        lemma_issues_of_other_files(a, b, files.drop_last(), large_file_kb, i);
        assert(files[files.len() - 1] != i);
    }
}

/// What stands at an entry that the walk does not select has no part in the
/// result: put any other content, path or size there, and the scan finds
/// the same. So nothing pruned is ever named in a finding.
pub proof fn lemma_unselected_entry_has_no_part(
    listing: Seq<Entry>,
    ignore: Seq<Seq<char>>,
    large_file_kb: u32,
    i: int,
    other: Entry,
)
    requires
        listing.len() <= usize::MAX,
        0 <= i < listing.len(),
        !selected(listing, ignore, i),
        same_place(listing[i], other),
    ensures
        scan_issues(listing.update(i, other), ignore, large_file_kb) == scan_issues(
            listing,
            ignore,
            large_file_kb,
        ),
{
    let changed = listing.update(i, other);
    assert forall|k: int| 0 <= k < listing.len() implies #[trigger] alike(listing, changed, k) by {}
    lemma_same_shape_same_walk(listing, changed, ignore, listing.len() as int);
    let files = selected_files(listing, ignore);
    assert forall|k: int| 0 <= k < files.len() implies 0 <= #[trigger] files[k] < listing.len()
        && files[k] != i by {
        lemma_selected_members(listing, ignore, listing.len() as int, k);
    }
    lemma_issues_of_other_files(listing, changed, files, large_file_kb, i);
}

/// The message of `issue` begins with `path`.
pub open spec fn names_path(issue: IssueView, path: Seq<char>) -> bool {
    path.len() <= issue.message.len() && issue.message.subrange(0, path.len() as int) == path
}

/// Every finding of the rules on a text begins its message with the path
/// of the file.
pub proof fn lemma_rule_findings_name_their_file(
    path: Seq<char>,
    ext: Seq<u8>,
    content: Seq<u8>,
    large_file_kb: u32,
    k: int,
)
    requires
        0 <= k < rule_issues(path, ext, content, large_file_kb).len(),
    ensures
        names_path(rule_issues(path, ext, content, large_file_kb)[k], path),
{
    let a = viewport_part(path, ext, content);
    let b = large_part(path, ext, content, large_file_kb);
    let c = dangerous_part(path, content);
    let d = alt_part(path, ext, content);
    let issue = rule_issues(path, ext, content, large_file_kb)[k];
    if k < a.len() {
        assert(issue == viewport_finding(path));
    } else if k < a.len() + b.len() {
        assert(issue == large_finding(path, content.len()));
    } else if k < a.len() + b.len() + c.len() {
        assert(issue == dangerous_finding(path));
    } else {
        assert(issue == d[k - a.len() - b.len() - c.len()]);
        assert(issue == alt_finding(path));
    }
    assert(issue.message.subrange(0, path.len() as int) =~= path);
}

/// Every finding among those of a list of files begins its message with
/// the path of one of these files.
pub proof fn lemma_findings_name_listed_files(
    listing: Seq<Entry>,
    files: Seq<usize>,
    large_file_kb: u32,
    k: int,
) -> (m: int)
    requires
        0 <= k < issues_of(listing, files, large_file_kb).len(),
    ensures
        0 <= m < files.len(),
        names_path(issues_of(listing, files, large_file_kb)[k], listing[files[m] as int].path@),
    decreases files.len(),
{
    let before = issues_of(listing, files.drop_last(), large_file_kb);
    if k < before.len() {
        lemma_findings_name_listed_files(listing, files.drop_last(), large_file_kb, k)
    } else {
        let e = listing[files.last() as int];
        let e_bytes = e.bytes.unwrap();
        assert(contribution(e, large_file_kb).len() > 0);
        lemma_rule_findings_name_their_file(
            e.path@,
            vstd::utf8::encode_utf8(e.ext@),
            decoded_bytes(e_bytes@),
            large_file_kb,
            k - before.len(),
        );
        files.len() - 1
    }
}

/// Every finding of a scan begins its message with the path of a file that
/// the walk selects: none names a file that is skipped or lies beneath a
/// skipped directory.
pub proof fn lemma_findings_name_selected_files(
    listing: Seq<Entry>,
    ignore: Seq<Seq<char>>,
    large_file_kb: u32,
    k: int,
) -> (i: int)
    requires
        listing.len() <= usize::MAX,
        0 <= k < scan_issues(listing, ignore, large_file_kb).len(),
    ensures
        selected(listing, ignore, i),
        names_path(scan_issues(listing, ignore, large_file_kb)[k], listing[i].path@),
{
    let files = selected_files(listing, ignore);
    let m = lemma_findings_name_listed_files(listing, files, large_file_kb, k);
    lemma_selected_members(listing, ignore, listing.len() as int, m);
    files[m] as int
}

} // verus!
