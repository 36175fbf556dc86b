//! Which images a text refers to.

use vstd::prelude::*;
use vstd::string::*;

use super::images;
use crate::text;
use crate::text_laws;

verus! {

/// The character ends a URL in a text.
pub open spec fn ends_url(c: char) -> bool {
    text::is_space(c) || c == ')' || c == '>'
}

/// The URLs with one more, unless it is there.
pub open spec fn joined_by(urls: Seq<Seq<char>>, url: Seq<char>) -> Seq<Seq<char>> {
    if exists|i: int| 0 <= i < urls.len() && #[trigger] urls[i] == url {
        urls
    } else {
        urls.push(url)
    }
}

proof fn lemma_url_end(url: Seq<char>, rest: Seq<char>, i: int)
    requires
        0 <= i <= url.len(),
        forall|j: int| 0 <= j < url.len() ==> !ends_url(#[trigger] url[j]),
        rest.len() > 0 ==> ends_url(rest[0]),
    ensures
        images::url_end(url + rest, i) == url.len(),
    decreases url.len() - i,
{
    let s = url + rest;
    if i < url.len() {
        assert(s[i] == url[i]);
        lemma_url_end(url, rest, i + 1);
    } else if rest.len() > 0 {
        assert(s[i] == rest[0]);
    }
}

/// An image that is written out as data counts up to the end of its URL, once; a text in which
/// there is none has none.
pub proof fn law_image_data(
    before: Seq<char>,
    url: Seq<char>,
    rest: Seq<char>,
    urls: Seq<Seq<char>>,
    s: Seq<char>,
)
    requires
        text::found(before + url + rest, "data:image/"@) == Some(before.len() as int),
        forall|j: int| 0 <= j < url.len() ==> !ends_url(#[trigger] url[j]),
        rest.len() > 0 ==> ends_url(rest[0]),
    ensures
        images::data_urls(before + url + rest, urls) == images::data_urls(
            rest,
            joined_by(urls, url),
        ),
        !text::has_text(s, "data:image/"@) ==> images::data_urls(s, urls) == urls,
{
    let all = before + url + rest;
    let here = all.skip(before.len() as int);
    assert(here =~= url + rest);
    lemma_url_end(url, rest, 0);
    assert(here.take(url.len() as int) =~= url);
    assert(here.skip(url.len() as int) =~= rest);
    assert(images::with_url(urls, url) == joined_by(urls, url));
    text_laws::law_found(s, "data:image/"@);
}

/// An address that is taken for that of an image.
pub open spec fn can_be_image(url: Seq<char>) -> bool {
    text::begins(url, "http://"@) || text::begins(url, "https://"@) || text::begins(url, "data:"@)
}

proof fn lemma_first(s: Seq<char>, a: Seq<char>, c: char, b: Seq<char>, pat: Seq<char>)
    requires
        s == a + seq![c] + b,
        pat == seq![c],
        forall|i: int| 0 <= i < a.len() ==> #[trigger] a[i] != c,
    ensures
        text::found(s, pat) == Some(a.len() as int),
{
    text_laws::law_found(s, pat);
    let n = a.len() as int;
    assert(s.subrange(n, n + 1) =~= pat);
    assert(text::occurs_at(s, pat, n));
    let i = text::found(s, pat)->0;
    if i < n {
        assert(s.subrange(i, i + 1)[0] == s[i]);
        assert(s[i] == a[i]);
    }
}

/// An image of Markdown counts where its address can be that of an image, once; a text in which
/// there is none has none.
pub proof fn law_markdown_image(
    before: Seq<char>,
    alt: Seq<char>,
    url: Seq<char>,
    rest: Seq<char>,
    urls: Seq<Seq<char>>,
    s: Seq<char>,
)
    requires
        text::found(
            before + seq!['!', '['] + alt + seq![']', '('] + url + seq![')'] + rest,
            "!["@,
        ) == Some(before.len() as int),
        forall|j: int| 0 <= j < alt.len() ==> #[trigger] alt[j] != ']',
        forall|j: int| 0 <= j < url.len() ==> #[trigger] url[j] != ')',
    ensures
        images::markdown_urls(
            before + seq!['!', '['] + alt + seq![']', '('] + url + seq![')'] + rest,
            urls,
        ) == images::markdown_urls(
            rest,
            if can_be_image(url) {
                joined_by(urls, url)
            } else {
                urls
            },
        ),
        !text::has_text(s, "!["@) ==> images::markdown_urls(s, urls) == urls,
{
    reveal_strlit("]");
    reveal_strlit("(");
    reveal_strlit(")");
    assert("]"@ =~= seq![']']);
    assert("("@ =~= seq!['(']);
    assert(")"@ =~= seq![')']);
    let all = before + seq!['!', '['] + alt + seq![']', '('] + url + seq![')'] + rest;
    let here = all.skip(before.len() as int);
    let label = seq!['!', '['] + alt;
    let tail = seq!['('] + url + seq![')'] + rest;
    assert(here =~= label + seq![']'] + tail);
    assert forall|i: int| 0 <= i < label.len() implies #[trigger] label[i] != ']' by {
        if i >= 2 {
            assert(label[i] == alt[i - 2]);
        }
    }
    lemma_first(here, label, ']', tail, "]"@);
    let b = label.len() as int;
    assert(here.skip(b + 1) =~= tail);
    let p = url + seq![')'] + rest;
    assert(tail =~= seq!['('] + p);
    text_laws::law_begins_and_ends("("@, p, p);
    lemma_first(p, url, ')', rest, ")"@);
    let e = url.len() as int;
    assert(p.take(e) =~= url);
    assert(p.skip(e + 1) =~= rest);
    assert(images::markdown_image(here) == Some((url, rest)));
    assert(images::with_url(urls, url) == joined_by(urls, url));
    text_laws::law_found(s, "!["@);
}

/// The images of a text are those that are written out as data, and then those of Markdown.
pub proof fn law_images_of_text(s: Seq<char>)
    ensures
        images::image_urls(s) == images::markdown_urls(
            s,
            images::data_urls(s, Seq::empty()),
        ),
        !text::has_text(s, "data:image/"@) && !text::has_text(s, "!["@) ==> images::image_urls(
            s,
        ).len() == 0,
{
    text_laws::law_found(s, "data:image/"@);
    text_laws::law_found(s, "!["@);
}

} // verus!
