use crate::chat::Chat;
use crate::utils::same_text;
use crate::uuid::UUID4;
use vstd::prelude::*;
use vstd::string::{StrSliceExecFns, StringExecFns};
use vstd::utf8::is_ascii_chars;

verus! {

#[verifier::external_type_specification]
#[verifier::external_body]
pub struct ExBase64DecodeError(base64::DecodeError);

/// What a server says of itself when asked for its status. On the wire it is
/// a JSON document in a string.
#[derive(Debug, PartialEq)]
pub struct StatusSpec {
    pub version: StatusVersionSpec,
    pub players: StatusPlayersSpec,
    pub description: Chat,
    pub favicon: Option<StatusFaviconSpec>,
}

#[derive(Clone, Debug, PartialEq)]
pub struct StatusVersionSpec {
    pub name: String,
    pub protocol: i32,
}

#[derive(Clone, Debug, PartialEq)]
pub struct StatusPlayersSpec {
    pub max: i32,
    pub online: i32,
    pub sample: Vec<StatusPlayerSampleSpec>,
}

#[derive(Clone, Debug, PartialEq)]
pub struct StatusPlayerSampleSpec {
    pub name: String,
    pub id: UUID4,
}

/// The icon of a server: image data and the name of its format. In the
/// status document it is one text, `data:<format>;base64,<data>`.
#[derive(Clone, Debug, PartialEq)]
pub struct StatusFaviconSpec {
    pub content_type: String,
    pub data: Vec<u8>,
}

/// The base64 text of some bytes, as `base64::encode` writes it.
pub uninterp spec fn base64_text(data: Seq<u8>) -> Seq<char>;

/// The bytes that a base64 text stands for, as `base64::decode` reads it;
/// nothing for a text that it refuses.
pub uninterp spec fn base64_data(text: Seq<char>) -> Option<Seq<u8>>;

/// `base64::encode`: the text of the bytes in the standard alphabet, with
/// padding. It has no failure but the overflow of the text's length, which
/// no slice is long enough for.
#[verifier::external_body]
fn base64_encode(data: &[u8]) -> (r: String)
    ensures
        r@ == base64_text(data@),
{
    base64::encode(data)
}

/// `base64::decode`: the bytes of a text in the standard alphabet, or an
/// error for a text that is none.
#[verifier::external_body]
fn base64_decode(text: &str) -> (r: Result<Vec<u8>, base64::DecodeError>)
    ensures
        match r {
            Ok(data) => base64_data(text@) == Some(data@),
            Err(_) => base64_data(text@) is None,
        },
{
    base64::decode(text)
}

/// The text that stands for an icon in the status document.
pub open spec fn favicon_text(content_type: Seq<char>, data: Seq<u8>) -> Seq<char> {
    "data:"@ + content_type + ";base64,"@ + base64_text(data)
}

/// The place of the first `c` in `text`, if there is one.
pub open spec fn index_of(text: Seq<char>, c: char) -> Option<nat>
    decreases text.len(),
{
    if text.len() == 0 {
        None
    } else if text[0] == c {
        Some(0)
    } else {
        match index_of(text.skip(1), c) {
            Some(i) => Some(i + 1),
            None => None,
        }
    }
}

/// What is left of `text` behind `tag` at its front, if `tag` stands there.
pub open spec fn behind_tag(text: Seq<char>, tag: Seq<char>) -> Option<Seq<char>> {
    if text.len() >= tag.len() && text.take(tag.len() as int) == tag {
        Some(text.skip(tag.len() as int))
    } else {
        None
    }
}

/// The two parts of the text of an icon, the name of the format and the
/// data in base64: the text is in ASCII and reads `data:`, the name up to
/// the first semicolon, `base64,`, and the data.
pub open spec fn favicon_parts(text: Seq<char>) -> Option<(Seq<char>, Seq<char>)> {
    if !is_ascii_chars(text) {
        None
    } else {
        match behind_tag(text, "data:"@) {
            None => None,
            Some(rest) => match index_of(rest, ';') {
                None => None,
                Some(i) => match behind_tag(rest.skip(i + 1 as int), "base64,"@) {
                    None => None,
                    Some(data) => Some((rest.take(i as int), data)),
                },
            },
        }
    }
}

/// Puts the text of an icon together from the name of its format and its
/// data in base64.
pub fn join_favicon_text(content_type: &str, data_base64: &str) -> (r: String)
    ensures
        r@ == "data:"@ + content_type@ + ";base64,"@ + data_base64@,
{
    let mut content = "data:".to_owned();
    content.append(content_type);
    content.append(";base64,");
    content.append(data_base64);
    content
}

/// Takes the text of an icon apart into the name of its format and its data
/// in base64.
pub fn split_favicon_text(v: &str) -> (r: Option<(&str, &str)>)
    ensures
        match r {
            Some((format, data)) => favicon_parts(v@) == Some((format@, data@)),
            None => favicon_parts(v@) is None,
        },
{
    if !v.is_ascii() {
        return None;
    }
    let v = str_tag(v, "data:")?;
    let (content_type, v) = str_until_pat(v, ';')?;
    let rest = str_tag(v, "base64,")?;
    Some((content_type, rest))
}

impl StatusFaviconSpec {
    /// The icon as it stands in the status document.
    pub fn to_text(&self) -> (r: String)
        ensures
            r@ == favicon_text(self.content_type@, self.data@),
    {
        let data_base64 = base64_encode(self.data.as_slice());
        join_favicon_text(self.content_type.as_str(), data_base64.as_str())
    }

    /// Reads an icon from its text in the status document. A text that has
    /// not the form of one, or whose data is not base64, gives nothing.
    pub fn from_text(v: &str) -> (r: Option<StatusFaviconSpec>)
        ensures
            match r {
                Some(icon) => favicon_parts(v@) matches Some((format, data)) && icon.content_type@
                    == format && base64_data(data) == Some(icon.data@),
                None => favicon_parts(v@) matches Some((_, data)) ==> base64_data(data) is None,
            },
    {
        let (content_type, rest) = split_favicon_text(v)?;
        match base64_decode(rest) {
            Ok(data) => Some(StatusFaviconSpec { data, content_type: content_type.to_owned() }),
            Err(_) => None,
        }
    }
}

/// Steps over `expected` at the front of `target`.
fn str_tag<'a>(target: &'a str, expected: &str) -> (r: Option<&'a str>)
    requires
        target.is_ascii(),
    ensures
        match r {
            Some(back) => behind_tag(target@, expected@) == Some(back@) && back.is_ascii(),
            None => behind_tag(target@, expected@) is None,
        },
{
    let n = expected.unicode_len();
    let (front, back) = str_take(target, n)?;
    if !same_text(front, expected) {
        None
    } else {
        Some(back)
    }
}

/// Splits `target` at the first `pat` and steps over it.
fn str_until_pat<'a>(target: &'a str, pat: char) -> (r: Option<(&'a str, &'a str)>)
    requires
        target.is_ascii(),
        pat as u32 <= 0x7F,
    ensures
        match r {
            Some((front, back)) => index_of(target@, pat) == Some(front@.len()) && front@
                == target@.take(front@.len() as int) && back@ == target@.skip(front@.len() + 1 as int)
                && back.is_ascii(),
            None => index_of(target@, pat) is None,
        },
{
    let n = target.unicode_len();
    let mut i: usize = 0;
    proof {
        assert(target@.skip(0) =~= target@);
    }
    while i < n
        invariant
            i <= n,
            n == target@.len(),
            target.is_ascii(),
            pat as u32 <= 0x7F,
            index_of(target@, pat) == match index_of(target@.skip(i as int), pat) {
                Some(k) => Some((i + k) as nat),
                None => None,
            },
        decreases n - i,
    {
        let ghost here = target@.skip(i as int);
        proof {
            assert(here[0] == target@[i as int]);
            assert(here.skip(1) =~= target@.skip(i + 1));
            assert(target@[i as int] as u32 <= 0x7F);
        }
        if target.get_ascii(i) == pat as u8 {
            let front = target.substring_ascii(0, i);
            let back = target.substring_ascii(i + 1, n);
            proof {
                assert(front@ =~= target@.take(i as int));
                assert(back@ =~= target@.skip(i + 1));
            }
            return Some((front, back));
        }
        i += 1;
    }
    None
}

/// Splits `target` behind its first `n` characters, if it has as many.
fn str_take<'a>(target: &'a str, n: usize) -> (r: Option<(&'a str, &'a str)>)
    requires
        target.is_ascii(),
    ensures
        match r {
            Some((front, back)) => target@.len() >= n && front@ == target@.take(n as int) && back@
                == target@.skip(n as int) && front.is_ascii() && back.is_ascii(),
            None => target@.len() < n,
        },
{
    let len = target.unicode_len();
    if len < n {
        None
    } else {
        let front = target.substring_ascii(0, n);
        let back = target.substring_ascii(n, len);
        proof {
            assert(front@ =~= target@.take(n as int));
            assert(back@ =~= target@.skip(n as int));
        }
        Some((front, back))
    }
}

} // verus!
