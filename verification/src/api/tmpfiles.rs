//! The decisions of the tmpfiles.org client: reading an upload reply and
//! finding the direct download link in a file's page.
use vstd::prelude::*;
use crate::text::{
    chars_to_string, contains_chars, has_infix, is_white_space, lemma_split_on_concat,
    lemma_split_on_no_sep, lemma_split_on_pieces, lemma_trim, owned, split_chars, split_on, str_chars, str_eq, trim, trim_chars, views,
};

verus! {

/// The `data` object of a tmpfiles.org upload reply.
#[derive(Debug, PartialEq, Eq)]
pub struct ApiResponseDataField {
    pub url: String,
}

/// A tmpfiles.org upload reply.
#[derive(Debug, PartialEq, Eq)]
pub struct ApiResponse {
    pub status: Option<String>,
    pub data: Option<ApiResponseDataField>,
}

/// Why an upload reply gave no page URL.
#[derive(Debug, PartialEq, Eq)]
pub enum UploadError {
    /// The reply lacked a field that it needs (`status`, or `data` on success).
    InvalidResponse(ApiResponse),
    /// The reply's status was not `success`.
    RequestFailed(ApiResponse),
}

/// Why no download link was found in a file's page.
#[derive(Debug, PartialEq, Eq, Clone, Copy)]
pub enum LinkError {
    /// No line of the page holds `class="download"`.
    NoDownloadLine,
    /// The first such line has fewer than four `"`-separated fields.
    NoDownloadHref,
}

/// The message of a link error.
pub open spec fn link_error_text(e: LinkError) -> Seq<char> {
    match e {
        LinkError::NoDownloadLine => "Could't find download link"@,
        LinkError::NoDownloadHref => "Found \"download class\" but could't find download link"@,
    }
}

impl LinkError {
    /// The message that reports this error.
    pub fn message(&self) -> (r: String)
        ensures
            r@ == link_error_text(*self),
    {
        match self {
            LinkError::NoDownloadLine => owned("Could't find download link"),
            LinkError::NoDownloadHref => owned("Found \"download class\" but could't find download link"),
        }
    }
}

/// The status word of a successful upload.
pub open spec fn success_word() -> Seq<char> {
    seq!['s', 'u', 'c', 'c', 'e', 's', 's']
}

/// What an upload reply amounts to: the page URL of the uploaded file, or
/// the kind of failure.
pub enum UploadOutcome {
    PageUrl(String),
    Invalid,
    Failed,
}

/// The outcome that an upload reply `data` calls for.
pub open spec fn upload_outcome(data: ApiResponse) -> UploadOutcome {
    match data.status {
        None => UploadOutcome::Invalid,
        Some(status) => if status@ == success_word() {
            match data.data {
                Some(d) => UploadOutcome::PageUrl(d.url),
                None => UploadOutcome::Invalid,
            }
        } else {
            UploadOutcome::Failed
        },
    }
}

/// Reads an upload reply: the page URL on `success`, else the error that
/// carries the reply.
pub fn upload_result(data: ApiResponse) -> (r: Result<String, UploadError>)
    ensures
        match upload_outcome(data) {
            UploadOutcome::PageUrl(url) => r == Ok::<String, UploadError>(url),
            UploadOutcome::Invalid => r == Err::<String, UploadError>(
                UploadError::InvalidResponse(data),
            ),
            UploadOutcome::Failed => r == Err::<String, UploadError>(
                UploadError::RequestFailed(data),
            ),
        },
{
    let is_success = match &data.status {
        None => {
            return Err(UploadError::InvalidResponse(data));
        },
        Some(status) => str_eq(status.as_str(), "success"),
    };
    proof {
        reveal_strlit("success");
        assert("success"@ =~= success_word());
    }
    if is_success {
        match &data.data {
            Some(d) => Ok(d.url.clone()),
            None => Err(UploadError::InvalidResponse(data)),
        }
    } else {
        Err(UploadError::RequestFailed(data))
    }
}

/// The marker of the line that holds the download link.
pub open spec fn download_marker() -> Seq<char> {
    seq!['c', 'l', 'a', 's', 's', '=', '"', 'd', 'o', 'w', 'n', 'l', 'o', 'a', 'd', '"']
}

/// The first of `lines` in which `pat` occurs (`Iterator::find`).
pub open spec fn find_first(lines: Seq<Seq<char>>, pat: Seq<char>) -> Option<Seq<char>>
    decreases lines.len(),
{
    if lines.len() == 0 {
        None
    } else if has_infix(lines[0], pat) {
        Some(lines[0])
    } else {
        find_first(lines.drop_first(), pat)
    }
}

/// The direct download link in the HTML of a tmpfiles.org page: in the
/// first line that holds `class="download"`, the fourth field between
/// double quotes, trimmed.
pub open spec fn download_link(html: Seq<char>) -> Result<Seq<char>, LinkError> {
    match find_first(split_on(html, '\n'), download_marker()) {
        None => Err(LinkError::NoDownloadLine),
        Some(line) => {
            let fields = split_on(line, '"');
            if fields.len() > 3 {
                Ok(trim(fields[3]))
            } else {
                Err(LinkError::NoDownloadHref)
            }
        },
    }
}

/// Finds the direct download link in the HTML of a tmpfiles.org page.
pub fn extract_download_link(html: &str) -> (r: Result<String, LinkError>)
    ensures
        match r {
            Ok(link) => download_link(html@) == Ok::<Seq<char>, LinkError>(link@),
            Err(e) => download_link(html@) == Err::<Seq<char>, LinkError>(e),
        },
{
    let chars = str_chars(html);
    let lines = split_chars(&chars, '\n');
    let marker = vec!['c', 'l', 'a', 's', 's', '=', '"', 'd', 'o', 'w', 'n', 'l', 'o', 'a', 'd', '"'];
    assert(marker@ =~= download_marker());
    let ghost all = views(lines@);
    let n = lines.len();
    let mut j: usize = 0;
    assert(all.subrange(0, n as int) =~= all);
    while j < n
        invariant
            n == lines.len(),
            j <= n,
            all == views(lines@),
            all == split_on(html@, '\n'),
            marker@ == download_marker(),
            find_first(all, marker@) == find_first(all.subrange(j as int, n as int), marker@),
        decreases n - j,
    {
        let ghost rest = all.subrange(j as int, n as int);
        assert(rest[0] == lines@[j as int]@);
        if contains_chars(&lines[j], &marker) {
            assert(rest.len() > 0);
            assert(find_first(rest, marker@) == Some(rest[0]));
            let fields = split_chars(&lines[j], '"');
            assert(views(fields@).len() == fields@.len());
            if fields.len() > 3 {
                let link = trim_chars(&fields[3]);
                assert(views(fields@)[3] == fields@[3]@);
                return Ok(chars_to_string(link));
            } else {
                return Err(LinkError::NoDownloadHref);
            }
        }
        assert(rest.drop_first() =~= all.subrange(j + 1, n as int));
        j = j + 1;
    }
    Err(LinkError::NoDownloadLine)
}

/// What `find_first` finds is one of the lines.
pub proof fn lemma_find_first_is_line(lines: Seq<Seq<char>>, pat: Seq<char>)
    ensures
        find_first(lines, pat) matches Some(l) ==> exists|k: int|
            0 <= k < lines.len() && #[trigger] lines[k] == l,
    decreases lines.len(),
{
    if lines.len() > 0 {
        if has_infix(lines[0], pat) {
            assert(lines[0] == lines[0]);
        } else {
            lemma_find_first_is_line(lines.drop_first(), pat);
            if find_first(lines, pat) is Some {
                let l = find_first(lines, pat)->0;
                let k = choose|k: int|
                    0 <= k < lines.drop_first().len() && #[trigger] lines.drop_first()[k] == l;
                assert(lines[k + 1] == l);
            }
        }
    }
}

/// A download link holds no double quote and no line break, and neither
/// begins nor ends with white space.
pub proof fn law_download_link_clean(html: Seq<char>)
    ensures
        download_link(html) matches Ok(link) ==> {
            &&& !link.contains('"')
            &&& !link.contains('\n')
            &&& link.len() > 0 ==> !is_white_space(link[0]) && !is_white_space(link.last())
        },
{
    let lines = split_on(html, '\n');
    lemma_find_first_is_line(lines, download_marker());
    if let Some(line) = find_first(lines, download_marker()) {
        let k = choose|k: int| 0 <= k < lines.len() && #[trigger] lines[k] == line;
        lemma_split_on_pieces(html, '\n');
        let fields = split_on(line, '"');
        lemma_split_on_pieces(line, '"');
        if fields.len() > 3 {
            let field = fields[3];
            let link = trim(field);
            lemma_trim(field);
            assert forall|t: int| 0 <= t < link.len() implies link[t] != '"' && link[t] != '\n' by {
                let i = choose|i: int| 0 <= i < field.len() && field[i] == link[t];
                assert(fields[3][i] != '"' && line.contains(fields[3][i]));
                let j = choose|j: int| 0 <= j < line.len() && line[j] == field[i];
                assert(lines[k][j] != '\n');
            }
        }
    }
}

/// A line that holds a download anchor: any text `p` (the indentation, or
/// whatever precedes the tag), then `<a class="download" href="`, the link
/// `u`, a closing `"`, and any text `q`.
pub open spec fn anchor_line(p: Seq<char>, u: Seq<char>, q: Seq<char>) -> Seq<char> {
    p + seq!['<', 'a', ' ', 'c', 'l', 'a', 's', 's', '='] + seq!['"'] + seq![
        'd',
        'o',
        'w',
        'n',
        'l',
        'o',
        'a',
        'd',
    ] + seq!['"'] + seq![' ', 'h', 'r', 'e', 'f', '='] + seq!['"'] + u + seq!['"'] + q
}

/// `find_first` finds the line at the first index whose line holds `pat`.
pub proof fn lemma_find_first_at(lines: Seq<Seq<char>>, pat: Seq<char>, k: int)
    requires
        0 <= k < lines.len(),
        has_infix(lines[k], pat),
        forall|j: int| 0 <= j < k ==> !has_infix(#[trigger] lines[j], pat),
    ensures
        find_first(lines, pat) == Some(lines[k]),
    decreases k,
{
    if k > 0 {
        assert(!has_infix(lines[0], pat));
        let rest = lines.drop_first();
        assert forall|j: int| 0 <= j < k - 1 implies !has_infix(#[trigger] rest[j], pat) by {
            assert(rest[j] == lines[j + 1]);
        }
        lemma_find_first_at(rest, pat, k - 1);
    }
}

/// The link of a page is the link of its first download anchor, trimmed,
/// whatever precedes the tag on that line (indentation included) and
/// whatever follows the link.
pub proof fn law_download_link_of_anchor(
    html: Seq<char>,
    k: int,
    p: Seq<char>,
    u: Seq<char>,
    q: Seq<char>,
)
    requires
        0 <= k < split_on(html, '\n').len(),
        forall|j: int|
            0 <= j < k ==> !has_infix(#[trigger] split_on(html, '\n')[j], download_marker()),
        split_on(html, '\n')[k] == anchor_line(p, u, q),
        !p.contains('"'),
        !u.contains('"'),
    ensures
        download_link(html) == Ok::<Seq<char>, LinkError>(trim(u)),
{
    let lines = split_on(html, '\n');
    let line = anchor_line(p, u, q);
    let x1 = p + seq!['<', 'a', ' ', 'c', 'l', 'a', 's', 's', '='];
    let x2 = seq!['d', 'o', 'w', 'n', 'l', 'o', 'a', 'd'];
    let x3 = seq![' ', 'h', 'r', 'e', 'f', '='];
    let off: int = p.len() as int + 3;
    assert(line.subrange(off, off + 16) =~= download_marker());
    assert(has_infix(line, download_marker()));
    lemma_find_first_at(lines, download_marker(), k);
    let t3 = u + seq!['"'] + q;
    let t2 = x3 + seq!['"'] + t3;
    let t1 = x2 + seq!['"'] + t2;
    assert(line =~= x1 + seq!['"'] + t1);
    assert(!x1.contains('"')) by {
        if x1.contains('"') {
            let i = choose|i: int| 0 <= i < x1.len() && x1[i] == '"';
            if i < p.len() {
                assert(p[i] == '"');
            }
        }
    }
    assert(!x2.contains('"')) by {
        if x2.contains('"') {
            let i = choose|i: int| 0 <= i < x2.len() && x2[i] == '"';
        }
    }
    assert(!x3.contains('"')) by {
        if x3.contains('"') {
            let i = choose|i: int| 0 <= i < x3.len() && x3[i] == '"';
        }
    }
    lemma_split_on_concat(x1, t1, '"');
    lemma_split_on_concat(x2, t2, '"');
    lemma_split_on_concat(x3, t3, '"');
    lemma_split_on_concat(u, q, '"');
    lemma_split_on_no_sep(x1, '"');
    lemma_split_on_no_sep(x2, '"');
    lemma_split_on_no_sep(x3, '"');
    lemma_split_on_no_sep(u, '"');
    let fields = split_on(line, '"');
    assert(fields =~= seq![x1, x2, x3, u] + split_on(q, '"'));
    assert(fields[3] == u);
}

} // verus!
