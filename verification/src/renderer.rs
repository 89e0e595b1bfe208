//! The page renderer: replaces the identifiers `{{files_list}}`,
//! `{{up_level_link}}` and `{{curr_path}}` of a page by freshly computed text.
//!
//! Reading a directory is left to the caller, who hands the result in as a
//! [`DirListing`]. Nothing is rendered from a directory whose path does not
//! begin with the base path: [`needs_listing`] tells the caller when a listing
//! is wanted at all, and never asks for one outside the base path.

use crate::text::{
    chars_of, find, has_prefix, is_identifier_char, join_with, lemma_split_on_len,
    lemma_substitute_absent, same_text, split_on, substitute,
};
use vstd::prelude::*;
use vstd::string::*;

verus! {

/// The longest identifier that the renderer takes.
pub const MAX_IDENTIFIER_LEN: usize = 255;

/// What a request asks the renderer for.
#[derive(Debug, PartialEq, Eq)]
pub struct RenderFlags {
    /// The directory to list, as the request named it.
    pub fs_path: String,
}

impl Default for RenderFlags {
    fn default() -> (flags: Self)
        ensures
            flags.fs_path@ == "/"@,
    {
        RenderFlags { fs_path: String::from_str("/") }
    }
}

/// Why a page or a fragment of it could not be rendered.
#[derive(Debug, PartialEq, Eq)]
pub enum RenderError {
    /// The identifier is not one that the renderer knows; the message names it.
    InvalidId(String),
    /// The path does not begin with the base path.
    PathOutsideBaseFsPath,
    /// The directory could not be read.
    FilesList,
}

/// What kind of entry a directory holds.
#[derive(Clone, Copy, Debug, PartialEq, Eq)]
pub enum EntryKind {
    Directory,
    File,
    /// The kind could not be found out.
    Unknown,
}

/// One entry of a directory, as read by the caller.
#[derive(Debug, PartialEq, Eq)]
pub struct DirEntry {
    /// The last component of the entry's path, if it has one.
    pub name: Option<String>,
    pub kind: EntryKind,
}

/// The model of a [`DirEntry`].
pub struct DirEntryView {
    pub name: Option<Seq<char>>,
    pub kind: EntryKind,
}

impl View for DirEntry {
    type V = DirEntryView;

    open spec fn view(&self) -> DirEntryView {
        DirEntryView {
            name: match self.name {
                Some(name) => Some(name@),
                None => None,
            },
            kind: self.kind,
        }
    }
}

impl DeepView for DirEntry {
    type V = DirEntryView;

    open spec fn deep_view(&self) -> DirEntryView {
        self@
    }
}

/// What reading a directory gave.
#[derive(Debug, PartialEq, Eq)]
pub enum DirListing {
    /// The directory, or one of its entries, could not be read.
    Unreadable,
    /// The entries in the order in which the directory gave them.
    Entries(Vec<DirEntry>),
}

/// The model of a [`DirListing`].
pub enum DirListingView {
    Unreadable,
    Entries(Seq<DirEntryView>),
}

impl View for DirListing {
    type V = DirListingView;

    open spec fn view(&self) -> DirListingView {
        match self {
            DirListing::Unreadable => DirListingView::Unreadable,
            DirListing::Entries(entries) => DirListingView::Entries(entries.deep_view()),
        }
    }
}

/// The path without its last segment: what stands before the last `/`, and
/// nothing where the path holds no `/`.
pub open spec fn parent_path(path: Seq<char>) -> Seq<char>
    decreases path.len(),
{
    if path.len() == 0 {
        path
    } else if path.last() == '/' {
        path.drop_last()
    } else {
        parent_path(path.drop_last())
    }
}

/// A path with a `/` is its parent, a `/` and a last segment without `/`; a
/// path without `/` has an empty parent.
pub proof fn lemma_parent_path_splits(path: Seq<char>)
    ensures
        parent_path(path).is_prefix_of(path),
        !path.contains('/') ==> parent_path(path).len() == 0,
        path.contains('/') ==> {
            let last_segment = path.skip(parent_path(path).len() as int + 1);
            &&& path == parent_path(path) + seq!['/'] + last_segment
            &&& !last_segment.contains('/')
        },
    decreases path.len(),
{
    if path.len() > 0 && path.last() != '/' {
        let shorter = path.drop_last();
        lemma_parent_path_splits(shorter);
        if path.contains('/') {
            let at: int = choose|at: int| 0 <= at < path.len() && path[at] == '/';
            assert(shorter[at] == '/');
            assert(path =~= shorter.push(path.last()));
        }
    }
}

/// The link to the parent of `path` under the browsing route.
pub open spec fn up_level_link(path: Seq<char>) -> Seq<char> {
    "<a href=/fs"@ + parent_path(path) + ">../</a>"@
}

/// The target of the link to the entry `name` of the directory `path`.
pub open spec fn entry_href(path: Seq<char>, name: Seq<char>) -> Seq<char> {
    if path == "/"@ {
        "/fs"@ + "/"@ + name
    } else {
        "/fs"@ + path + "/"@ + name
    }
}

/// The list item of one entry: a link for a directory, the bare name for a
/// file, an empty item for an entry without a name. An entry whose kind is
/// unknown opens its item and writes nothing more.
pub open spec fn list_item(entry: DirEntryView, path: Seq<char>) -> Seq<char> {
    match entry.name {
        None => "<li>"@ + "</li>"@,
        Some(name) => match entry.kind {
            EntryKind::Unknown => "<li>"@,
            EntryKind::Directory => "<li>"@ + "<a href="@ + entry_href(path, name) + ">"@ + name
                + "</a>"@ + "</li>"@,
            EntryKind::File => "<li>"@ + name + "</li>"@,
        },
    }
}

/// The list items of `entries`, in their order.
pub open spec fn list_items(entries: Seq<DirEntryView>, path: Seq<char>) -> Seq<char>
    decreases entries.len(),
{
    if entries.len() == 0 {
        Seq::empty()
    } else {
        list_items(entries.drop_last(), path) + list_item(entries.last(), path)
    }
}

/// The HTML list of the entries of the directory `path`.
pub open spec fn files_list(entries: Seq<DirEntryView>, path: Seq<char>) -> Seq<char> {
    "<ul>"@ + list_items(entries, path) + "</ul>"@
}

/// The refusal that stands for a listing or a link outside the base path: it
/// names no directory but the base path, to which it links back.
pub open spec fn access_denied(base: Seq<char>) -> Seq<char> {
    "Access denied. Go back to <a href=/fs"@ + base + ">"@ + base + "</a>"@
}

/// What stands for `{{files_list}}`: the refusal outside the base path, a
/// notice for a directory that could not be read, else the list of its
/// entries.
pub open spec fn files_list_fragment(
    path: Seq<char>,
    base: Seq<char>,
    listing: DirListingView,
) -> Seq<char> {
    if !base.is_prefix_of(path) {
        access_denied(base)
    } else {
        match listing {
            DirListingView::Unreadable => "<br>Unable to read into directory"@,
            DirListingView::Entries(entries) => files_list(entries, path),
        }
    }
}

/// What stands for `{{up_level_link}}`: the link to the parent, or outside the
/// base path the refusal.
pub open spec fn up_level_fragment(path: Seq<char>, base: Seq<char>) -> Seq<char> {
    if base.is_prefix_of(path) {
        up_level_link(path)
    } else {
        access_denied(base)
    }
}

/// What stands for the identifier `id`, if the renderer knows it.
pub open spec fn fragment(
    id: Seq<char>,
    path: Seq<char>,
    base: Seq<char>,
    listing: DirListingView,
) -> Option<Seq<char>> {
    if id == "files_list"@ {
        Some(files_list_fragment(path, base, listing))
    } else if id == "up_level_link"@ {
        Some(up_level_fragment(path, base))
    } else if id == "curr_path"@ {
        Some(path)
    } else {
        None
    }
}

/// Whether `id` can be looked for in a page: letters, digits and underscores
/// of ASCII, at most [`MAX_IDENTIFIER_LEN`] of them.
pub open spec fn is_identifier(id: Seq<char>) -> bool {
    &&& id.len() <= MAX_IDENTIFIER_LEN
    &&& forall|i: int| 0 <= i < id.len() ==> is_identifier_char(#[trigger] id[i])
}

/// How the identifier `id` is written in a page.
pub open spec fn placeholder(id: Seq<char>) -> Seq<char> {
    "{{"@ + id + "}}"@
}

/// The pattern that matches the placeholder of `id`: the placeholder with
/// each brace escaped.
pub open spec fn identifier_rule(id: Seq<char>) -> Seq<char> {
    "\\{\\{"@ + id + "\\}\\}"@
}

/// The identifier that a rule was made for: the rule without its first four
/// and its last four characters.
pub open spec fn rule_identifier(rule: Seq<char>) -> Seq<char> {
    rule.subrange(4, rule.len() - 4)
}

/// Whether `rule` is the pattern of an identifier.
pub open spec fn is_identifier_rule(rule: Seq<char>) -> bool {
    &&& rule.len() >= 8
    &&& is_identifier(rule_identifier(rule))
    &&& rule == identifier_rule(rule_identifier(rule))
}

/// The message of the error for an identifier that cannot be rendered.
pub open spec fn invalid_id_message(id: Seq<char>) -> Seq<char> {
    "Error rendering file. Unsupported identifier: "@ + id
}

/// One pass over a page: every placeholder of `id` replaced by its fragment.
/// `None` where `id` is no identifier, or where the page holds the placeholder
/// of an identifier that the renderer does not know.
pub open spec fn identifier_pass(
    page: Seq<char>,
    id: Seq<char>,
    path: Seq<char>,
    base: Seq<char>,
    listing: DirListingView,
) -> Option<Seq<char>> {
    if !is_identifier(id) {
        None
    } else if find(page, placeholder(id)) < 0 {
        Some(page)
    } else {
        match fragment(id, path, base, listing) {
            Some(text) => Some(substitute(page, placeholder(id), text)),
            None => None,
        }
    }
}

/// A page after the three passes, in their order: `files_list`, then
/// `up_level_link`, then `curr_path`, each over what the pass before left.
pub open spec fn rendered(
    page: Seq<char>,
    path: Seq<char>,
    base: Seq<char>,
    listing: DirListingView,
) -> Seq<char> {
    let listed = substitute(
        page,
        placeholder("files_list"@),
        files_list_fragment(path, base, listing),
    );
    let linked = substitute(listed, placeholder("up_level_link"@), up_level_fragment(path, base));
    substitute(linked, placeholder("curr_path"@), path)
}

/// Whether rendering `page` reads the listing of the directory `path`: only
/// where the page holds `{{files_list}}` and the path begins with the base
/// path.
pub open spec fn listing_wanted(page: Seq<char>, path: Seq<char>, base: Seq<char>) -> bool {
    base.is_prefix_of(path) && find(page, placeholder("files_list"@)) >= 0
}

/// A page without any of the three placeholders is rendered to itself.
pub proof fn lemma_render_without_identifiers(
    page: Seq<char>,
    path: Seq<char>,
    base: Seq<char>,
    listing: DirListingView,
)
    requires
        find(page, placeholder("files_list"@)) < 0,
        find(page, placeholder("up_level_link"@)) < 0,
        find(page, placeholder("curr_path"@)) < 0,
    ensures
        rendered(page, path, base, listing) == page,
{
    lemma_substitute_absent(
        page,
        placeholder("files_list"@),
        files_list_fragment(path, base, listing),
    );
    lemma_substitute_absent(page, placeholder("up_level_link"@), up_level_fragment(path, base));
    lemma_substitute_absent(page, placeholder("curr_path"@), path);
}

/// Where no listing is wanted, the rendered page is the same whatever the
/// listing holds: outside the base path, and for a page without
/// `{{files_list}}`, the directory is never looked at.
pub proof fn lemma_render_ignores_unwanted_listing(
    page: Seq<char>,
    path: Seq<char>,
    base: Seq<char>,
    first: DirListingView,
    second: DirListingView,
)
    requires
        !listing_wanted(page, path, base),
    ensures
        rendered(page, path, base, first) == rendered(page, path, base, second),
{
    if base.is_prefix_of(path) {
        lemma_substitute_absent(
            page,
            placeholder("files_list"@),
            files_list_fragment(path, base, first),
        );
        lemma_substitute_absent(
            page,
            placeholder("files_list"@),
            files_list_fragment(path, base, second),
        );
    }
}

/// Outside the base path every `{{files_list}}` and every `{{up_level_link}}`
/// becomes the refusal, which is never empty and is the same whatever the
/// listing holds: no entry of any directory is shown.
pub proof fn lemma_render_outside_base(
    page: Seq<char>,
    path: Seq<char>,
    base: Seq<char>,
    listing: DirListingView,
)
    requires
        !base.is_prefix_of(path),
    ensures
        access_denied(base).len() > 0,
        files_list_fragment(path, base, listing) == access_denied(base),
        up_level_fragment(path, base) == access_denied(base),
        rendered(page, path, base, listing) == substitute(
            substitute(
                substitute(page, placeholder("files_list"@), access_denied(base)),
                placeholder("up_level_link"@),
                access_denied(base),
            ),
            placeholder("curr_path"@),
            path,
        ),
{
    reveal_strlit("Access denied. Go back to <a href=/fs");
}

/// The path without its last segment.
fn parent_of(path: &str) -> (parent: String)
    ensures
        parent@ == parent_path(path@),
{
    let chars = chars_of(path);
    let mut end: usize = chars.len();
    assert(path@.take(end as int) =~= path@);
    while end > 0 && chars[end - 1] != '/'
        invariant
            end <= chars.len(),
            chars@ == path@,
            parent_path(path@) == parent_path(path@.take(end as int)),
        decreases end,
    {
        assert(path@.take(end as int).drop_last() =~= path@.take(end - 1));
        end -= 1;
    }
    if end == 0 {
        String::new()
    } else {
        String::from_str(path.substring_char(0, end - 1))
    }
}

/// Renders the link to the parent directory of `path`, or refuses where
/// `path` does not begin with `base_fs_path`.
pub fn render_up_level_link(path: &str, base_fs_path: &str) -> (result: Result<
    String,
    RenderError,
>)
    ensures
        match result {
            Ok(link) => base_fs_path@.is_prefix_of(path@) && link@ == up_level_link(path@),
            Err(error) => !base_fs_path@.is_prefix_of(path@)
                && error is PathOutsideBaseFsPath,
        },
{
    if !has_prefix(path, base_fs_path) {
        return Err(RenderError::PathOutsideBaseFsPath);
    }
    let mut output = String::from_str("<a href=/fs");
    let parent = parent_of(path);
    output.append(parent.as_str());
    output.append(">../</a>");
    Ok(output)
}

/// Appends the list item of `entry` to `output`.
fn push_list_item(output: &mut String, entry: &DirEntry, path: &str)
    ensures
        final(output)@ == old(output)@ + list_item(entry@, path@),
{
    output.append("<li>");
    match &entry.name {
        None => {
            output.append("</li>");
        },
        Some(name) => {
            match entry.kind {
                EntryKind::Unknown => {},
                EntryKind::Directory => {
                    let mut href = String::from_str("/fs");
                    if !same_text(path, "/") {
                        href.append(path);
                    }
                    href.append("/");
                    href.append(name.as_str());
                    output.append("<a href=");
                    output.append(href.as_str());
                    output.append(">");
                    output.append(name.as_str());
                    output.append("</a>");
                    output.append("</li>");
                },
                EntryKind::File => {
                    output.append(name.as_str());
                    output.append("</li>");
                },
            }
        },
    }
}

/// Renders the listing of the directory `path` as an HTML list. Refuses a
/// path that does not begin with `base_fs_path`, whatever the listing holds,
/// and a directory that could not be read.
pub fn render_files_list(path: &str, base_fs_path: &str, listing: &DirListing) -> (result: Result<
    String,
    RenderError,
>)
    ensures
        match result {
            Ok(list) => base_fs_path@.is_prefix_of(path@) && (listing@ matches DirListingView::Entries(
                entries,
            ) && list@ == files_list(entries, path@)),
            Err(RenderError::PathOutsideBaseFsPath) => !base_fs_path@.is_prefix_of(path@),
            Err(RenderError::FilesList) => base_fs_path@.is_prefix_of(path@)
                && listing@ is Unreadable,
            Err(RenderError::InvalidId(_)) => false,
        },
{
    if !has_prefix(path, base_fs_path) {
        return Err(RenderError::PathOutsideBaseFsPath);
    }
    match listing {
        DirListing::Unreadable => Err(RenderError::FilesList),
        DirListing::Entries(entries) => {
            let ghost model = entries.deep_view();
            let mut output = String::from_str("<ul>");
            let mut i: usize = 0;
            while i < entries.len()
                invariant
                    i <= entries.len(),
                    model == entries.deep_view(),
                    output@ == "<ul>"@ + list_items(model.take(i as int), path@),
                decreases entries.len() - i,
            {
                push_list_item(&mut output, &entries[i], path);
                proof {
                    let next = model.take(i + 1);
                    assert(next.drop_last() =~= model.take(i as int));
                }
                i += 1;
            }
            assert(model.take(entries.len() as int) =~= model);
            output.append("</ul>");
            Ok(output)
        },
    }
}

/// Tests whether `id` is made of letters, digits and underscores of ASCII
/// and is short enough.
pub fn check_identifier(id: &str) -> (valid: bool)
    ensures
        valid == is_identifier(id@),
{
    let chars = chars_of(id);
    if chars.len() > MAX_IDENTIFIER_LEN {
        return false;
    }
    let mut i: usize = 0;
    while i < chars.len()
        invariant
            i <= chars.len(),
            chars@ == id@,
            forall|k: int| 0 <= k < i ==> is_identifier_char(#[trigger] id@[k]),
        decreases chars.len() - i,
    {
        let code: u32 = chars[i] as u32;
        let lower = 0x61 <= code && code <= 0x7A;
        let upper = 0x41 <= code && code <= 0x5A;
        let number = 0x30 <= code && code <= 0x39;
        if !(lower || upper || number || code == 0x5F) {
            return false;
        }
        i += 1;
    }
    true
}

/// Splits `haystack` at the matches of the pattern `rule`.
///
/// This calls `regex::Regex::new` on `rule` and `regex::Regex::split` on
/// `haystack`, and was not proved. It is called only with the pattern of an
/// identifier: the escaped braces `\{\{`, letters, digits and underscores, the
/// escaped braces `\}\}`. Such a pattern compiles, and matches the
/// placeholder of that identifier, character for character, and nothing else.
/// `split` takes its matches from the left, each search starting where the
/// match before ended, and hands out what stands before the first match,
/// between two matches, and after the last: the contract states this as
/// `split_on` of the placeholder.
#[verifier::external_body]
fn split_by_rule(rule: &str, haystack: &str) -> (pieces: Vec<String>)
    requires
        is_identifier_rule(rule@),
    ensures
        pieces.deep_view() == split_on(haystack@, placeholder(rule_identifier(rule@))),
{
    let pattern = regex::Regex::new(rule).unwrap();
    pattern.split(haystack).map(|piece| piece.to_string()).collect()
}

/// Splits `page` at the placeholders of `id`.
fn split_at_placeholders(page: &str, id: &str) -> (pieces: Vec<String>)
    requires
        is_identifier(id@),
    ensures
        pieces.deep_view() == split_on(page@, placeholder(id@)),
        pieces.len() >= 1,
        pieces.len() == 1 <==> find(page@, placeholder(id@)) < 0,
{
    let mut rule = String::from_str("\\{\\{");
    rule.append(id);
    rule.append("\\}\\}");
    proof {
        reveal_strlit("\\{\\{");
        reveal_strlit("\\}\\}");
        reveal_strlit("{{");
        reveal_strlit("}}");
        assert(rule_identifier(rule@) =~= id@);
        lemma_split_on_len(page@, placeholder(id@));
    }
    let pieces = split_by_rule(rule.as_str(), page);
    pieces
}

/// Writes the refusal for a path outside `base_fs_path`.
fn refusal(base_fs_path: &str) -> (text: String)
    ensures
        text@ == access_denied(base_fs_path@),
{
    let mut text = String::from_str("Access denied. Go back to <a href=/fs");
    text.append(base_fs_path);
    text.append(">");
    text.append(base_fs_path);
    text.append("</a>");
    text
}

/// Computes what stands for the identifier `id`, or refuses an identifier
/// that the renderer does not know.
pub fn render_fragment(id: &str, flags: &RenderFlags, base_fs_path: &str, listing: &DirListing) -> (result:
    Result<String, RenderError>)
    ensures
        match fragment(id@, flags.fs_path@, base_fs_path@, listing@) {
            Some(text) => result matches Ok(output) && output@ == text,
            None => result matches Err(RenderError::InvalidId(message)) && message@
                == invalid_id_message(id@),
        },
{
    if same_text(id, "files_list") {
        match render_files_list(flags.fs_path.as_str(), base_fs_path, listing) {
            Ok(list) => Ok(list),
            Err(RenderError::FilesList) => Ok(String::from_str("<br>Unable to read into directory")),
            Err(_) => Ok(refusal(base_fs_path)),
        }
    } else if same_text(id, "up_level_link") {
        match render_up_level_link(flags.fs_path.as_str(), base_fs_path) {
            Ok(link) => Ok(link),
            Err(_) => Ok(refusal(base_fs_path)),
        }
    } else if same_text(id, "curr_path") {
        Ok(flags.fs_path.clone())
    } else {
        let mut message = String::from_str("Error rendering file. Unsupported identifier: ");
        message.append(id);
        Err(RenderError::InvalidId(message))
    }
}

/// Replaces every placeholder of `id` in `page` by what stands for it.
///
/// A page without that placeholder is left as it is, whatever the identifier.
/// The call fails, and leaves the page as it is, where `id` is no identifier
/// or where the page holds the placeholder of an identifier that the renderer
/// does not know.
pub fn render_identifier(
    page: &mut String,
    id: &str,
    flags: &RenderFlags,
    base_fs_path: &str,
    listing: &DirListing,
) -> (result: Result<(), RenderError>)
    ensures
        match identifier_pass(old(page)@, id@, flags.fs_path@, base_fs_path@, listing@) {
            Some(text) => result is Ok && final(page)@ == text,
            None => final(page)@ == old(page)@ && (result matches Err(
                RenderError::InvalidId(message),
            ) && message@ == invalid_id_message(id@)),
        },
{
    if !check_identifier(id) {
        let mut message = String::from_str("Error rendering file. Unsupported identifier: ");
        message.append(id);
        return Err(RenderError::InvalidId(message));
    }
    let pieces = split_at_placeholders(page.as_str(), id);
    if pieces.len() < 2 {
        return Ok(());
    }
    match render_fragment(id, flags, base_fs_path, listing) {
        Ok(text) => {
            *page = join_with(&pieces, text.as_str());
            Ok(())
        },
        Err(error) => Err(error),
    }
}

/// Renders `page` in place: `{{files_list}}` becomes the listing of the
/// directory `flags.fs_path`, `{{up_level_link}}` the link to its parent, and
/// `{{curr_path}}` the path itself. Always succeeds.
pub fn render_index_page(
    page: &mut String,
    flags: &RenderFlags,
    base_fs_path: &str,
    listing: &DirListing,
) -> (result: Result<(), RenderError>)
    ensures
        result is Ok,
        final(page)@ == rendered(old(page)@, flags.fs_path@, base_fs_path@, listing@),
{
    proof {
        lemma_known_identifiers();
    }
    render_identifier(page, "files_list", flags, base_fs_path, listing)?;
    render_identifier(page, "up_level_link", flags, base_fs_path, listing)?;
    render_identifier(page, "curr_path", flags, base_fs_path, listing)?;
    Ok(())
}

/// The three identifiers of the renderer are identifiers, and differ.
proof fn lemma_known_identifiers()
    ensures
        is_identifier("files_list"@),
        is_identifier("up_level_link"@),
        is_identifier("curr_path"@),
        "files_list"@ != "up_level_link"@,
        "files_list"@ != "curr_path"@,
        "up_level_link"@ != "curr_path"@,
{
    reveal_strlit("files_list");
    reveal_strlit("up_level_link");
    reveal_strlit("curr_path");
}

/// Tells whether rendering `page` needs the listing of `flags.fs_path`. Where
/// it does not, the directory need not be read, and any listing gives the same
/// page; it never does for a path outside `base_fs_path`.
pub fn needs_listing(page: &str, flags: &RenderFlags, base_fs_path: &str) -> (wanted: bool)
    ensures
        wanted == listing_wanted(page@, flags.fs_path@, base_fs_path@),
        wanted ==> base_fs_path@.is_prefix_of(flags.fs_path@),
{
    if !has_prefix(flags.fs_path.as_str(), base_fs_path) {
        return false;
    }
    proof {
        lemma_known_identifiers();
    }
    let pieces = split_at_placeholders(page, "files_list");
    pieces.len() >= 2
}

} // verus!
