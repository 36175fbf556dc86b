//! Images that a text refers to.

use vstd::prelude::*;
use vstd::string::*;

use crate::json;
use crate::json::{Json, JsonV};
use crate::text;
use crate::text::{chars_of, find_chars, is_space_char, starts_with, tail, text_of};

verus! {

/// What a URL of image data begins with.
pub const DATA_IMAGE: &'static str = "data:image/";

/// The first position at or behind `i` that holds white space or a closing bracket.
pub open spec fn url_end(s: Seq<char>, i: int) -> int
    decreases s.len() - i,
{
    if 0 <= i < s.len() && !text::is_space(s[i]) && s[i] != ')' && s[i] != '>' {
        url_end(s, i + 1)
    } else {
        i
    }
}

/// The URLs with one more, unless it is among them.
pub open spec fn with_url(urls: Seq<Seq<char>>, url: Seq<char>) -> Seq<Seq<char>> {
    if urls.contains(url) {
        urls
    } else {
        urls.push(url)
    }
}

/// The URLs, and those of image data in `s`.
pub open spec fn data_urls(s: Seq<char>, urls: Seq<Seq<char>>) -> Seq<Seq<char>>
    decreases s.len(),
{
    match text::found(s, DATA_IMAGE@) {
        None => urls,
        Some(i) => {
            let here = s.skip(i);
            let end = url_end(here, 0);
            proof {
                lemma_data_url(s, i);
            }
            data_urls(here.skip(end), with_url(urls, here.take(end)))
        },
    }
}

proof fn lemma_url_end(s: Seq<char>, i: int)
    requires
        0 <= i <= s.len(),
    ensures
        i <= url_end(s, i) <= s.len(),
    decreases s.len() - i,
{
    if i < s.len() && !text::is_space(s[i]) && s[i] != ')' && s[i] != '>' {
        lemma_url_end(s, i + 1);
    }
}

/// A URL of image data is not empty, and ends in the text.
pub proof fn lemma_data_url(s: Seq<char>, i: int)
    requires
        text::found(s, DATA_IMAGE@) == Some(i),
    ensures
        0 <= i < s.len(),
        0 < url_end(s.skip(i), 0) <= s.len() - i,
{
    text::lemma_found_from(s, DATA_IMAGE@, 0);
    reveal_strlit("data:image/");
    let here = s.skip(i);
    assert(s.subrange(i, i + DATA_IMAGE@.len())[0] == DATA_IMAGE@[0]);
    assert(here[0] == 'd');
    lemma_url_end(here, 1);
    assert(url_end(here, 0) == url_end(here, 1));
}

/// An address that an image may have.
pub open spec fn is_address(url: Seq<char>) -> bool {
    text::begins(url, "http://"@) || text::begins(url, "https://"@) || text::begins(url, "data:"@)
}

/// Where `s` begins with an image of Markdown: its address, and the text behind it.
pub open spec fn markdown_image(s: Seq<char>) -> Option<(Seq<char>, Seq<char>)> {
    match text::found(s, "]"@) {
        None => None,
        Some(b) => match text::behind(s.skip(b + 1), "("@) {
            None => None,
            Some(p) => match text::found(p, ")"@) {
                None => None,
                Some(e) => Some((p.take(e), p.skip(e + 1))),
            },
        },
    }
}

/// The URLs, and the addresses of the Markdown images in `s`.
pub open spec fn markdown_urls(s: Seq<char>, urls: Seq<Seq<char>>) -> Seq<Seq<char>>
    decreases s.len(),
{
    match text::found(s, "!["@) {
        None => urls,
        Some(i) => {
            let here = s.skip(i);
            proof {
                lemma_markdown(s, i);
            }
            match markdown_image(here) {
                Some((url, rest)) => markdown_urls(
                    rest,
                    if is_address(url) {
                        with_url(urls, url)
                    } else {
                        urls
                    },
                ),
                None => markdown_urls(here.skip(2), urls),
            }
        },
    }
}

/// An image of Markdown leaves less text behind it.
pub proof fn lemma_markdown(s: Seq<char>, i: int)
    requires
        text::found(s, "!["@) == Some(i),
    ensures
        0 <= i <= s.len() - 2,
        markdown_image(s.skip(i)) matches Some(m) ==> m.1.len() < s.len(),
{
    text::lemma_found_from(s, "!["@, 0);
    reveal_strlit("![");
    reveal_strlit("]");
    reveal_strlit("(");
    reveal_strlit(")");
    let here = s.skip(i);
    text::lemma_found_from(here, "]"@, 0);
    if let Some(b) = text::found(here, "]"@) {
        if let Some(p) = text::behind(here.skip(b + 1), "("@) {
            text::lemma_found_from(p, ")"@, 0);
        }
    }
}

/// The URLs of the images that a text refers to.
pub open spec fn image_urls(s: Seq<char>) -> Seq<Seq<char>> {
    markdown_urls(s, data_urls(s, Seq::empty()))
}

/// A content part for an image.
pub open spec fn image_part(url: Seq<char>) -> JsonV {
    JsonV::object().with("type"@, JsonV::Text("image_url"@)).with(
        "image_url"@,
        JsonV::object().with("url"@, JsonV::Text(url)),
    )
}

/// The content parts for the images.
pub open spec fn image_parts(urls: Seq<Seq<char>>) -> Seq<JsonV> {
    Seq::new(urls.len(), |i: int| image_part(urls[i]))
}

/// Adds a URL, unless it is there.
fn add_url(urls: &mut Vec<String>, url: String)
    ensures
        text::strings(final(urls)@) == with_url(text::strings(old(urls)@), url@),
{
    let ghost before = text::strings(urls@);
    let mut i: usize = 0;
    while i < urls.len()
        invariant
            i <= urls@.len(),
            before == text::strings(urls@),
            urls@ == old(urls)@,
            forall|j: int| 0 <= j < i ==> before[j] != url@,
        decreases urls@.len() - i,
    {
        if text::same(urls[i].as_str(), url.as_str()) {
            assert(before[i as int] == url@);
            return;
        }
        i += 1;
    }
    urls.push(url);
    assert(text::strings(urls@) =~= before.push(url@));
}

fn find_url_end(s: &Vec<char>) -> (r: usize)
    ensures
        r == url_end(s@, 0),
        r <= s@.len(),
{
    let mut i: usize = 0;
    while i < s.len() && !is_space_char(s[i]) && s[i] != ')' && s[i] != '>'
        invariant
            i <= s@.len(),
            url_end(s@, 0) == url_end(s@, i as int),
        decreases s@.len() - i,
    {
        i += 1;
    }
    i
}

fn find_data_urls(s: &Vec<char>, urls: &mut Vec<String>)
    ensures
        text::strings(final(urls)@) == data_urls(s@, text::strings(old(urls)@)),
{
    let pat = chars_of(DATA_IMAGE);
    let ghost before = text::strings(urls@);
    let mut rest = tail(s, 0);
    assert(rest@ =~= s@);
    loop
        invariant
            pat@ == DATA_IMAGE@,
            before == text::strings(old(urls)@),
            data_urls(rest@, text::strings(urls@)) == data_urls(s@, before),
        decreases rest@.len(),
    {
        match find_chars(&rest, &pat, 0) {
            None => {
                return;
            },
            Some(i) => {
                proof {
                    lemma_data_url(rest@, i as int);
                }
                let here = tail(&rest, i);
                let end = find_url_end(&here);
                let url = text_of(&here, 0, end);
                assert(url@ =~= here@.take(end as int));
                add_url(urls, url);
                rest = tail(&here, end);
            },
        }
    }
}

fn read_markdown_image(s: &Vec<char>) -> (r: Option<(String, Vec<char>)>)
    ensures
        match r {
            Some((url, rest)) => markdown_image(s@) == Some((url@, rest@)),
            None => markdown_image(s@) is None,
        },
{
    proof {
        reveal_strlit("]");
        reveal_strlit("(");
        reveal_strlit(")");
        text::lemma_found_from(s@, "]"@, 0);
    }
    let bracket = chars_of("]");
    let b: usize = find_chars(s, &bracket, 0)?;
    assert(b < s.len());
    let after_alt = tail(s, b + 1);
    if after_alt.len() == 0 || after_alt[0] != '(' {
        assert(!text::begins(after_alt@, "("@)) by {
            if text::begins(after_alt@, "("@) {
                assert(after_alt@.take(1)[0] == '(');
            }
        }
        return None;
    }
    assert(after_alt@.take(1) =~= "("@);
    let paren = tail(&after_alt, 1);
    proof {
        text::lemma_found_from(paren@, ")"@, 0);
    }
    let bracket = chars_of(")");
    let e: usize = find_chars(&paren, &bracket, 0)?;
    let url = text_of(&paren, 0, e);
    assert(url@ =~= paren@.take(e as int));
    Some((url, tail(&paren, e + 1)))
}

fn find_markdown_urls(s: &Vec<char>, urls: &mut Vec<String>)
    ensures
        text::strings(final(urls)@) == markdown_urls(s@, text::strings(old(urls)@)),
{
    let pat = chars_of("![");
    let ghost before = text::strings(urls@);
    let mut rest = tail(s, 0);
    assert(rest@ =~= s@);
    loop
        invariant
            pat@ == "!["@,
            before == text::strings(old(urls)@),
            markdown_urls(rest@, text::strings(urls@)) == markdown_urls(s@, before),
        decreases rest@.len(),
    {
        match find_chars(&rest, &pat, 0) {
            None => {
                return;
            },
            Some(i) => {
                proof {
                    lemma_markdown(rest@, i as int);
                }
                let here = tail(&rest, i);
                match read_markdown_image(&here) {
                    Some((url, behind)) => {
                        if starts_with(url.as_str(), "http://") || starts_with(
                            url.as_str(),
                            "https://",
                        ) || starts_with(url.as_str(), "data:") {
                            add_url(urls, url);
                        }
                        rest = behind;
                    },
                    None => {
                        rest = tail(&here, 2);
                    },
                }
            },
        }
    }
}

/// The content parts for the images that a text refers to: URLs of image data first, and the
/// addresses of Markdown images behind them, each once.
pub(crate) fn extract_image_urls_from_text(s: &str) -> (r: Vec<Json>)
    ensures
        json::items_view(r@) == image_parts(image_urls(s@)),
{
    let v = chars_of(s);
    let mut urls: Vec<String> = Vec::new();
    assert(text::strings(urls@) =~= Seq::empty());
    find_data_urls(&v, &mut urls);
    find_markdown_urls(&v, &mut urls);
    let ghost all = text::strings(urls@);
    let mut r: Vec<Json> = Vec::new();
    let mut i: usize = 0;
    while i < urls.len()
        invariant
            i <= urls@.len(),
            all == text::strings(urls@),
            json::items_view(r@) =~= image_parts(all.take(i as int)),
        decreases urls@.len() - i,
    {
        let ghost before = r@;
        let part = Json::object().with("type", Json::text("image_url")).with(
            "image_url",
            Json::object().with("url", Json::text(urls[i].as_str())),
        );
        r.push(part);
        assert(json::items_view(r@) =~= json::items_view(before).push(part@));
        i += 1;
        assert(all.take(i as int) =~= all.take(i - 1).push(all[i - 1]));
    }
    assert(all.take(i as int) =~= all);
    r
}

} // verus!
