//! What is logged of a content.
use vstd::prelude::*;
use vstd::string::*;

use crate::message::{part_views, Content, ContentPart, ContentView, PartView};
use crate::text::{
    byte_size, chars_of, debug_text, decimal, decimal_text, find_char, join, joined, quoted,
    size_in_bytes, text_range, texts,
};

verus! {

broadcast use vstd::string::group_string_axioms;

/// A link up to its first comma.
pub open spec fn link_head(url: Seq<char>) -> Seq<char> {
    match url.index_of_first(',') {
        Some(i) => url.take(i),
        None => url,
    }
}

/// A link up to its first comma: of one that embeds data, what kind it is.
pub fn preview_url_header(url: &str) -> (r: String)
    ensures
        r@ == link_head(url@),
{
    let chars = chars_of(url);
    proof {
        url@.index_of_first_ensures(',');
    }
    match find_char(&chars, ',', 0) {
        Some(i) => {
            proof {
                let k = url@.index_of_first(',')->0;
                if k < i {
                    assert(url@[k] != ',');
                }
                if k > i {
                    assert(url@[i as int] != ',');
                }
            }
            let r = text_range(&chars, 0, i);
            assert(r@ =~= url@.take(i as int));
            r
        },
        None => {
            assert(!url@.contains(','));
            url.to_owned()
        },
    }
}

/// How many characters of text there are.
pub open spec fn text_total(parts: Seq<PartView>) -> nat
    decreases parts.len(),
{
    if parts.len() == 0 {
        0
    } else {
        text_total(parts.drop_last()) + match parts.last() {
            PartView::Text(t) => t.len(),
            _ => 0nat,
        }
    }
}

/// What is logged of the links to images.
pub open spec fn links_logged(parts: Seq<PartView>) -> Seq<Seq<char>>
    decreases parts.len(),
{
    if parts.len() == 0 {
        Seq::empty()
    } else {
        let head = links_logged(parts.drop_last());
        match parts.last() {
            PartView::ImageUrl(url) => head.push(
                link_head(url) + "(len="@ + decimal(byte_size(url) as nat) + ")"@,
            ),
            _ => head,
        }
    }
}

/// What is logged of the images that are embedded.
pub open spec fn images_logged(parts: Seq<PartView>) -> Seq<Seq<char>>
    decreases parts.len(),
{
    if parts.len() == 0 {
        Seq::empty()
    } else {
        let head = images_logged(parts.drop_last());
        match parts.last() {
            PartView::ImageBase64(media_type, data) => head.push(
                media_type + "(data_len="@ + decimal(byte_size(data) as nat) + ")"@,
            ),
            _ => head,
        }
    }
}

pub open spec fn audio_count(parts: Seq<PartView>) -> nat
    decreases parts.len(),
{
    if parts.len() == 0 {
        0
    } else {
        audio_count(parts.drop_last()) + if parts.last() is Audio {
            1nat
        } else {
            0nat
        }
    }
}

pub open spec fn file_count(parts: Seq<PartView>) -> nat
    decreases parts.len(),
{
    if parts.len() == 0 {
        0
    } else {
        file_count(parts.drop_last()) + if parts.last() is File {
            1nat
        } else {
            0nat
        }
    }
}

/// A list of texts as it is logged.
pub open spec fn list_logged(list: Seq<Seq<char>>) -> Seq<char> {
    "["@ + joined(list.map_values(|s: Seq<char>| debug_text(s)), ", "@) + "]"@
}

/// What is logged of a content: how much of what is in it, never what it says.
pub open spec fn content_logged(content: ContentView) -> Seq<char> {
    match content {
        ContentView::Text(t) => "text(len="@ + decimal(t.len()) + ")"@,
        ContentView::Parts(parts) => "parts(total="@ + decimal(parts.len()) + ", text_len="@
            + decimal(text_total(parts)) + ", image_urls="@ + list_logged(links_logged(parts))
            + ", image_base64="@ + list_logged(images_logged(parts)) + ", audio_parts="@ + decimal(
            audio_count(parts),
        ) + ", file_parts="@ + decimal(file_count(parts)) + ")"@,
    }
}

fn log_list(list: &Vec<String>) -> (r: String)
    ensures
        r@ == list_logged(texts(list@)),
{
    let ghost all = texts(list@).map_values(|s: Seq<char>| debug_text(s));
    let mut shown: Vec<String> = Vec::new();
    let mut i: usize = 0;
    while i < list.len()
        invariant
            i <= list.len(),
            all == texts(list@).map_values(|s: Seq<char>| debug_text(s)),
            shown.len() == i,
            forall|j: int| 0 <= j < i ==> (#[trigger] shown@[j])@ == all[j],
        decreases list.len() - i,
    {
        assert(all[i as int] == debug_text(list@[i as int]@));
        shown.push(quoted(&list[i]));
        i += 1;
    }
    assert(texts(shown@) =~= all);
    let mut t = "[".to_owned();
    t.push_str(&join(&shown, ", "));
    t.push_str("]");
    t
}

proof fn lemma_text_total_grows(parts: Seq<PartView>, k: int)
    requires
        0 <= k <= parts.len(),
    ensures
        text_total(parts.take(k)) <= text_total(parts),
    decreases parts.len(),
{
    if k < parts.len() {
        lemma_text_total_grows(parts.drop_last(), k);
        assert(parts.drop_last().take(k) =~= parts.take(k));
    } else {
        assert(parts.take(k) =~= parts);
    }
}

/// What is logged of a content.
pub fn summarize_content_for_log(content: &Content) -> (r: String)
    requires
        content@ matches ContentView::Parts(parts) ==> text_total(parts) <= usize::MAX,
    ensures
        r@ == content_logged(content@),
{
    let parts = match content {
        Content::Text(text) => {
            let mut t = "text(len=".to_owned();
            t.push_str(&decimal_text(text.unicode_len() as u64));
            t.push_str(")");
            return t;
        },
        Content::Parts(parts) => parts,
    };
    let ghost all = part_views(parts@);
    let mut text_len: usize = 0;
    let mut links: Vec<String> = Vec::new();
    let mut images: Vec<String> = Vec::new();
    let mut audio: usize = 0;
    let mut files: usize = 0;
    let mut i: usize = 0;
    assert(all.take(0) =~= Seq::empty());
    assert(texts(links@) =~= Seq::<Seq<char>>::empty());
    assert(texts(images@) =~= Seq::<Seq<char>>::empty());
    while i < parts.len()
        invariant
            i <= parts.len(),
            all == part_views(parts@),
            text_total(all) <= usize::MAX,
            text_len == text_total(all.take(i as int)),
            texts(links@) == links_logged(all.take(i as int)),
            texts(images@) == images_logged(all.take(i as int)),
            audio == audio_count(all.take(i as int)),
            files == file_count(all.take(i as int)),
            audio <= i,
            files <= i,
        decreases parts.len() - i,
    {
        assert(all.take(i + 1).drop_last() =~= all.take(i as int));
        assert(all.take(i + 1).last() == parts@[i as int]@);
        proof {
            lemma_text_total_grows(all, i + 1);
        }
        let ghost links_before = texts(links@);
        let ghost images_before = texts(images@);
        match &parts[i] {
            ContentPart::Text { text } => {
                text_len += text.unicode_len();
            },
            ContentPart::ImageUrl { url } => {
                let mut t = preview_url_header(url);
                t.push_str("(len=");
                t.push_str(&decimal_text(size_in_bytes(url) as u64));
                t.push_str(")");
                let ghost view = t@;
                links.push(t);
                assert(texts(links@) =~= links_before.push(view));
            },
            ContentPart::ImageBase64 { media_type, data } => {
                let mut t = media_type.clone();
                t.push_str("(data_len=");
                t.push_str(&decimal_text(size_in_bytes(data) as u64));
                t.push_str(")");
                let ghost view = t@;
                images.push(t);
                assert(texts(images@) =~= images_before.push(view));
            },
            ContentPart::Audio { .. } => {
                audio += 1;
            },
            ContentPart::File { .. } => {
                files += 1;
            },
        }
        i += 1;
    }
    assert(all.take(i as int) =~= all);
    let mut t = "parts(total=".to_owned();
    t.push_str(&decimal_text(parts.len() as u64));
    t.push_str(", text_len=");
    t.push_str(&decimal_text(text_len as u64));
    t.push_str(", image_urls=");
    t.push_str(&log_list(&links));
    t.push_str(", image_base64=");
    t.push_str(&log_list(&images));
    t.push_str(", audio_parts=");
    t.push_str(&decimal_text(audio as u64));
    t.push_str(", file_parts=");
    t.push_str(&decimal_text(files as u64));
    t.push_str(")");
    t
}

} // verus!
