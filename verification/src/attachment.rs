//! Files attached to a prompt, and the message parts they become.
use vstd::prelude::*;
use crate::json::{Json, JsonValue};
use crate::tools::{jstr, obj1, obj2};
use crate::native::{base64, base64_encode, utf8_text};
use crate::text::{
    cat, chars_of, decimal, decimal_string, lines, lines_of, lowercase, owned, str_eq, string_of,
    string_views, sub_chars, to_lowercase, trim, trim_chars,
};
use vstd::utf8::{decode_utf8, valid_utf8};

verus! {

/// One part of a message's content.
#[derive(Clone, Debug, PartialEq)]
pub enum ContentPart {
    Text { text: String },
    ImageUrl { url: String },
}

/// A content part, as text.
pub enum PartView {
    Text(Seq<char>),
    ImageUrl(Seq<char>),
}

impl View for ContentPart {
    type V = PartView;

    open spec fn view(&self) -> PartView {
        match self {
            ContentPart::Text { text } => PartView::Text(text@),
            ContentPart::ImageUrl { url } => PartView::ImageUrl(url@),
        }
    }
}

/// The JSON form of a content part in a chat request.
pub open spec fn part_json(p: PartView) -> Json {
    match p {
        PartView::Text(t) => Json::Object(seq![("type"@, jstr("text"@)), ("text"@, jstr(t))]),
        PartView::ImageUrl(u) => Json::Object(
            seq![("type"@, jstr("image_url"@)), ("image_url"@, Json::Object(seq![("url"@, jstr(u))]))],
        ),
    }
}

impl ContentPart {
    /// The part as the chat API takes it.
    pub fn to_openrouter(&self) -> (r: JsonValue)
        ensures
            r@ == part_json(self@),
    {
        match self {
            ContentPart::Text { text } => obj2(
                "type",
                JsonValue::Str(owned("text")),
                "text",
                JsonValue::Str(text.clone()),
            ),
            ContentPart::ImageUrl { url } => obj2(
                "type",
                JsonValue::Str(owned("image_url")),
                "image_url",
                obj1("url", JsonValue::Str(url.clone())),
            ),
        }
    }

    /// A copy of the part.
    pub fn duplicate(&self) -> (r: ContentPart)
        ensures
            r@ == self@,
    {
        match self {
            ContentPart::Text { text } => ContentPart::Text { text: text.clone() },
            ContentPart::ImageUrl { url } => ContentPart::ImageUrl { url: url.clone() },
        }
    }
}

/// A loaded attachment: the file's name and its content parts.
#[derive(Clone, Debug, PartialEq)]
pub struct Attachment {
    pub filename: String,
    pub parts: Vec<ContentPart>,
}

/// The views of a sequence of parts.
pub open spec fn part_views(v: Seq<ContentPart>) -> Seq<PartView> {
    v.map_values(|p: ContentPart| p@)
}

/// All parts of the attachments, attachment after attachment.
pub open spec fn all_parts(atts: Seq<Attachment>) -> Seq<PartView>
    decreases atts.len(),
{
    if atts.len() == 0 {
        Seq::empty()
    } else {
        all_parts(atts.drop_last()) + part_views(atts.last().parts@)
    }
}

/// What `Path::file_name` gives for a path: its last component, unless the
/// path ends in `..` or has no component.
pub uninterp spec fn file_name_of(path: Seq<char>) -> Option<Seq<char>>;

/// The last component of a path (`std::path::Path::file_name`); a path
/// made from a `str` always converts back to one.
#[verifier::external_body]
fn path_file_name(path: &str) -> (r: Option<String>)
    ensures
        match r {
            Some(n) => file_name_of(path@) == Some(n@),
            None => file_name_of(path@) is None,
        },
{
    std::path::Path::new(path).file_name().and_then(|n| n.to_str()).map(|n| n.to_string())
}

/// The position of the last `'.'` in `s`.
pub open spec fn last_dot(s: Seq<char>) -> Option<int>
    decreases s.len(),
{
    if s.len() == 0 {
        None
    } else if s.last() == '.' {
        Some(s.len() - 1)
    } else {
        last_dot(s.drop_last())
    }
}

/// The extension of a file name, as `Path::extension` documents it: what
/// follows the last `'.'`, unless there is no dot or the only dot starts the
/// name.
pub open spec fn extension_of(name: Seq<char>) -> Option<Seq<char>> {
    match last_dot(name) {
        Some(i) => if i == 0 {
            None
        } else {
            Some(name.subrange(i + 1, name.len() as int))
        },
        None => None,
    }
}

/// The extension of a path, lowercased; empty where it has none.
pub open spec fn lower_extension(path: Seq<char>) -> Seq<char> {
    match file_name_of(path) {
        Some(n) => match extension_of(n) {
            Some(e) => lowercase(e),
            None => lowercase(Seq::empty()),
        },
        None => lowercase(Seq::empty()),
    }
}

/// The name an attachment is shown under: the path's file name, else the path.
pub open spec fn attachment_name(path: Seq<char>) -> Seq<char> {
    match file_name_of(path) {
        Some(n) => n,
        None => path,
    }
}

/// The position of the last `'.'` in `s`.
fn last_dot_exec(s: &[char]) -> (r: Option<usize>)
    ensures
        match r {
            Some(i) => last_dot(s@) == Some(i as int) && i < s@.len(),
            None => last_dot(s@) is None,
        },
{
    let mut k: usize = s.len();
    assert(s@.take(k as int) =~= s@);
    while k > 0
        invariant
            k <= s@.len(),
            last_dot(s@) == last_dot(s@.take(k as int)),
        decreases k,
    {
        assert(s@.take(k as int).drop_last() == s@.take(k - 1));
        if s[k - 1] == '.' {
            return Some(k - 1);
        }
        k = k - 1;
    }
    None
}

/// The extension of a file name (`Path::extension`).
fn extension_exec(name: &str) -> (r: Option<String>)
    ensures
        match r {
            Some(e) => extension_of(name@) == Some(e@),
            None => extension_of(name@) is None,
        },
{
    let cs = chars_of(name);
    let sl = cs.as_slice();
    match last_dot_exec(sl) {
        Some(i) => if i == 0 {
            None
        } else {
            let len = sl.len();
            assert(i < len);
            Some(string_of(&sub_chars(sl, i + 1, len)))
        },
        None => None,
    }
}

/// The name an attachment is shown under: the path's file name, else the path.
pub fn attachment_filename(path: &str) -> (r: String)
    ensures
        r@ == attachment_name(path@),
{
    match path_file_name(path) {
        Some(n) => n,
        None => owned(path),
    }
}

/// The extension of a path, lowercased; empty where it has none.
pub fn path_extension(path: &str) -> (r: String)
    ensures
        r@ == lower_extension(path@),
{
    let ext = match path_file_name(path) {
        Some(n) => match extension_exec(n.as_str()) {
            Some(e) => e,
            None => String::new(),
        },
        None => String::new(),
    };
    to_lowercase(ext.as_str())
}

/// The extensions of files attached as text.
pub open spec fn is_text_ext(e: Seq<char>) -> bool {
    e == "md"@
    || e == "txt"@
    || e == "rs"@
    || e == "py"@
    || e == "js"@
    || e == "ts"@
    || e == "jsx"@
    || e == "tsx"@
    || e == "json"@
    || e == "yaml"@
    || e == "yml"@
    || e == "toml"@
    || e == "html"@
    || e == "css"@
    || e == "scss"@
    || e == "sh"@
    || e == "bash"@
    || e == "zsh"@
    || e == "fish"@
    || e == "go"@
    || e == "java"@
    || e == "c"@
    || e == "cpp"@
    || e == "h"@
    || e == "hpp"@
    || e == "rb"@
    || e == "sql"@
    || e == "xml"@
    || e == "csv"@
    || e == "log"@
    || e == "cfg"@
    || e == "ini"@
    || e == "conf"@
    || e == "env"@
    || e == "gitignore"@
    || e == "dockerignore"@
    || e == "editorconfig"@
    || e == "makefile"@
    || e == "cmake"@
    || e == "gradle"@
    || e == "proto"@
    || e == "zig"@
    || e == "nim"@
    || e == "lua"@
    || e == "r"@
    || e == "R"@
    || e == "pl"@
    || e == "pm"@
    || e == "ex"@
    || e == "exs"@
    || e == "erl"@
    || e == "hs"@
    || e == "ml"@
    || e == "mli"@
    || e == "v"@
    || e == "vhd"@
    || e == "asm"@
    || e == "s"@
    || e == "nix"@
    || e == "lock"@
    || e == "ipynb"@
}

/// The extensions of files attached as images.
pub open spec fn is_image_ext(e: Seq<char>) -> bool {
    e == "png"@
    || e == "jpg"@
    || e == "jpeg"@
    || e == "gif"@
    || e == "webp"@
    || e == "svg"@
}

/// Whether files with this extension are attached as text.
fn text_ext(e: &str) -> (b: bool)
    ensures
        b == is_text_ext(e@),
{
    str_eq(e, "md")
        || str_eq(e, "txt")
        || str_eq(e, "rs")
        || str_eq(e, "py")
        || str_eq(e, "js")
        || str_eq(e, "ts")
        || str_eq(e, "jsx")
        || str_eq(e, "tsx")
        || str_eq(e, "json")
        || str_eq(e, "yaml")
        || str_eq(e, "yml")
        || str_eq(e, "toml")
        || str_eq(e, "html")
        || str_eq(e, "css")
        || str_eq(e, "scss")
        || str_eq(e, "sh")
        || str_eq(e, "bash")
        || str_eq(e, "zsh")
        || str_eq(e, "fish")
        || str_eq(e, "go")
        || str_eq(e, "java")
        || str_eq(e, "c")
        || str_eq(e, "cpp")
        || str_eq(e, "h")
        || str_eq(e, "hpp")
        || str_eq(e, "rb")
        || str_eq(e, "sql")
        || str_eq(e, "xml")
        || str_eq(e, "csv")
        || str_eq(e, "log")
        || str_eq(e, "cfg")
        || str_eq(e, "ini")
        || str_eq(e, "conf")
        || str_eq(e, "env")
        || str_eq(e, "gitignore")
        || str_eq(e, "dockerignore")
        || str_eq(e, "editorconfig")
        || str_eq(e, "makefile")
        || str_eq(e, "cmake")
        || str_eq(e, "gradle")
        || str_eq(e, "proto")
        || str_eq(e, "zig")
        || str_eq(e, "nim")
        || str_eq(e, "lua")
        || str_eq(e, "r")
        || str_eq(e, "R")
        || str_eq(e, "pl")
        || str_eq(e, "pm")
        || str_eq(e, "ex")
        || str_eq(e, "exs")
        || str_eq(e, "erl")
        || str_eq(e, "hs")
        || str_eq(e, "ml")
        || str_eq(e, "mli")
        || str_eq(e, "v")
        || str_eq(e, "vhd")
        || str_eq(e, "asm")
        || str_eq(e, "s")
        || str_eq(e, "nix")
        || str_eq(e, "lock")
        || str_eq(e, "ipynb")
}

/// Whether files with this extension are attached as images.
fn image_ext(e: &str) -> (b: bool)
    ensures
        b == is_image_ext(e@),
{
    str_eq(e, "png")
        || str_eq(e, "jpg")
        || str_eq(e, "jpeg")
        || str_eq(e, "gif")
        || str_eq(e, "webp")
        || str_eq(e, "svg")
}

/// How a file is attached.
#[derive(Clone, Copy, PartialEq, Eq, Structural, Debug)]
pub enum AttachmentKind {
    Image,
    Pdf,
    Text,
    Other,
}

/// The kind of a file by its lowercased extension: images and text by the
/// known extensions, PDF by `"pdf"`, anything else sent as an image.
pub open spec fn kind_of_extension(e: Seq<char>) -> AttachmentKind {
    if is_image_ext(e) {
        AttachmentKind::Image
    } else if e == "pdf"@ {
        AttachmentKind::Pdf
    } else if is_text_ext(e) {
        AttachmentKind::Text
    } else {
        AttachmentKind::Other
    }
}

/// The files attached as text are exactly those of the listed text
/// extensions (md, txt, rs, py, js, ...), the images those of png, jpg,
/// jpeg, gif, webp and svg, PDFs those of pdf; each listed extension is
/// attached as its list says.
pub proof fn lemma_listed_extensions()
    ensures
        kind_of_extension("md"@) == AttachmentKind::Text,
        kind_of_extension("txt"@) == AttachmentKind::Text,
        kind_of_extension("rs"@) == AttachmentKind::Text,
        kind_of_extension("py"@) == AttachmentKind::Text,
        kind_of_extension("js"@) == AttachmentKind::Text,
        kind_of_extension("ts"@) == AttachmentKind::Text,
        kind_of_extension("jsx"@) == AttachmentKind::Text,
        kind_of_extension("tsx"@) == AttachmentKind::Text,
        kind_of_extension("json"@) == AttachmentKind::Text,
        kind_of_extension("yaml"@) == AttachmentKind::Text,
        kind_of_extension("yml"@) == AttachmentKind::Text,
        kind_of_extension("toml"@) == AttachmentKind::Text,
        kind_of_extension("html"@) == AttachmentKind::Text,
        kind_of_extension("css"@) == AttachmentKind::Text,
        kind_of_extension("scss"@) == AttachmentKind::Text,
        kind_of_extension("sh"@) == AttachmentKind::Text,
        kind_of_extension("bash"@) == AttachmentKind::Text,
        kind_of_extension("zsh"@) == AttachmentKind::Text,
        kind_of_extension("fish"@) == AttachmentKind::Text,
        kind_of_extension("go"@) == AttachmentKind::Text,
        kind_of_extension("java"@) == AttachmentKind::Text,
        kind_of_extension("c"@) == AttachmentKind::Text,
        kind_of_extension("cpp"@) == AttachmentKind::Text,
        kind_of_extension("h"@) == AttachmentKind::Text,
        kind_of_extension("hpp"@) == AttachmentKind::Text,
        kind_of_extension("rb"@) == AttachmentKind::Text,
        kind_of_extension("sql"@) == AttachmentKind::Text,
        kind_of_extension("xml"@) == AttachmentKind::Text,
        kind_of_extension("csv"@) == AttachmentKind::Text,
        kind_of_extension("log"@) == AttachmentKind::Text,
        kind_of_extension("cfg"@) == AttachmentKind::Text,
        kind_of_extension("ini"@) == AttachmentKind::Text,
        kind_of_extension("conf"@) == AttachmentKind::Text,
        kind_of_extension("env"@) == AttachmentKind::Text,
        kind_of_extension("gitignore"@) == AttachmentKind::Text,
        kind_of_extension("dockerignore"@) == AttachmentKind::Text,
        kind_of_extension("editorconfig"@) == AttachmentKind::Text,
        kind_of_extension("makefile"@) == AttachmentKind::Text,
        kind_of_extension("cmake"@) == AttachmentKind::Text,
        kind_of_extension("gradle"@) == AttachmentKind::Text,
        kind_of_extension("proto"@) == AttachmentKind::Text,
        kind_of_extension("zig"@) == AttachmentKind::Text,
        kind_of_extension("nim"@) == AttachmentKind::Text,
        kind_of_extension("lua"@) == AttachmentKind::Text,
        kind_of_extension("r"@) == AttachmentKind::Text,
        kind_of_extension("R"@) == AttachmentKind::Text,
        kind_of_extension("pl"@) == AttachmentKind::Text,
        kind_of_extension("pm"@) == AttachmentKind::Text,
        kind_of_extension("ex"@) == AttachmentKind::Text,
        kind_of_extension("exs"@) == AttachmentKind::Text,
        kind_of_extension("erl"@) == AttachmentKind::Text,
        kind_of_extension("hs"@) == AttachmentKind::Text,
        kind_of_extension("ml"@) == AttachmentKind::Text,
        kind_of_extension("mli"@) == AttachmentKind::Text,
        kind_of_extension("v"@) == AttachmentKind::Text,
        kind_of_extension("vhd"@) == AttachmentKind::Text,
        kind_of_extension("asm"@) == AttachmentKind::Text,
        kind_of_extension("s"@) == AttachmentKind::Text,
        kind_of_extension("nix"@) == AttachmentKind::Text,
        kind_of_extension("lock"@) == AttachmentKind::Text,
        kind_of_extension("ipynb"@) == AttachmentKind::Text,
        kind_of_extension("png"@) == AttachmentKind::Image,
        kind_of_extension("jpg"@) == AttachmentKind::Image,
        kind_of_extension("jpeg"@) == AttachmentKind::Image,
        kind_of_extension("gif"@) == AttachmentKind::Image,
        kind_of_extension("webp"@) == AttachmentKind::Image,
        kind_of_extension("svg"@) == AttachmentKind::Image,
        kind_of_extension("pdf"@) == AttachmentKind::Pdf,
{
    assert(kind_of_extension("png"@) == AttachmentKind::Image) by {
        reveal_strlit("png");
    }
    assert(kind_of_extension("jpg"@) == AttachmentKind::Image) by {
        reveal_strlit("jpg");
    }
    assert(kind_of_extension("jpeg"@) == AttachmentKind::Image) by {
        reveal_strlit("jpeg");
    }
    assert(kind_of_extension("gif"@) == AttachmentKind::Image) by {
        reveal_strlit("gif");
    }
    assert(kind_of_extension("webp"@) == AttachmentKind::Image) by {
        reveal_strlit("webp");
    }
    assert(kind_of_extension("svg"@) == AttachmentKind::Image) by {
        reveal_strlit("svg");
    }
    assert(kind_of_extension("pdf"@) == AttachmentKind::Pdf) by {
        reveal_strlit("gif");
        reveal_strlit("jpeg");
        reveal_strlit("jpg");
        reveal_strlit("pdf");
        reveal_strlit("png");
        reveal_strlit("svg");
        reveal_strlit("webp");
        assert("pdf"@[1] != "png"@[1]);
        assert("pdf"@[0] != "jpg"@[0]);
        assert("pdf"@.len() != "jpeg"@.len());
        assert("pdf"@[0] != "gif"@[0]);
        assert("pdf"@.len() != "webp"@.len());
        assert("pdf"@[0] != "svg"@[0]);
    }
    assert(kind_of_extension("md"@) == AttachmentKind::Text) by {
        reveal_strlit("gif");
        reveal_strlit("jpeg");
        reveal_strlit("jpg");
        reveal_strlit("md");
        reveal_strlit("pdf");
        reveal_strlit("png");
        reveal_strlit("svg");
        reveal_strlit("webp");
        assert("md"@.len() != "png"@.len());
        assert("md"@.len() != "jpg"@.len());
        assert("md"@.len() != "jpeg"@.len());
        assert("md"@.len() != "gif"@.len());
        assert("md"@.len() != "webp"@.len());
        assert("md"@.len() != "svg"@.len());
        assert("md"@.len() != "pdf"@.len());
    }
    assert(kind_of_extension("txt"@) == AttachmentKind::Text) by {
        reveal_strlit("gif");
        reveal_strlit("jpeg");
        reveal_strlit("jpg");
        reveal_strlit("pdf");
        reveal_strlit("png");
        reveal_strlit("svg");
        reveal_strlit("txt");
        reveal_strlit("webp");
        assert("txt"@[0] != "png"@[0]);
        assert("txt"@[0] != "jpg"@[0]);
        assert("txt"@.len() != "jpeg"@.len());
        assert("txt"@[0] != "gif"@[0]);
        assert("txt"@.len() != "webp"@.len());
        assert("txt"@[0] != "svg"@[0]);
        assert("txt"@[0] != "pdf"@[0]);
    }
    assert(kind_of_extension("rs"@) == AttachmentKind::Text) by {
        reveal_strlit("gif");
        reveal_strlit("jpeg");
        reveal_strlit("jpg");
        reveal_strlit("pdf");
        reveal_strlit("png");
        reveal_strlit("rs");
        reveal_strlit("svg");
        reveal_strlit("webp");
        assert("rs"@.len() != "png"@.len());
        assert("rs"@.len() != "jpg"@.len());
        assert("rs"@.len() != "jpeg"@.len());
        assert("rs"@.len() != "gif"@.len());
        assert("rs"@.len() != "webp"@.len());
        assert("rs"@.len() != "svg"@.len());
        assert("rs"@.len() != "pdf"@.len());
    }
    assert(kind_of_extension("py"@) == AttachmentKind::Text) by {
        reveal_strlit("gif");
        reveal_strlit("jpeg");
        reveal_strlit("jpg");
        reveal_strlit("pdf");
        reveal_strlit("png");
        reveal_strlit("py");
        reveal_strlit("svg");
        reveal_strlit("webp");
        assert("py"@.len() != "png"@.len());
        assert("py"@.len() != "jpg"@.len());
        assert("py"@.len() != "jpeg"@.len());
        assert("py"@.len() != "gif"@.len());
        assert("py"@.len() != "webp"@.len());
        assert("py"@.len() != "svg"@.len());
        assert("py"@.len() != "pdf"@.len());
    }
    assert(kind_of_extension("js"@) == AttachmentKind::Text) by {
        reveal_strlit("gif");
        reveal_strlit("jpeg");
        reveal_strlit("jpg");
        reveal_strlit("js");
        reveal_strlit("pdf");
        reveal_strlit("png");
        reveal_strlit("svg");
        reveal_strlit("webp");
        assert("js"@.len() != "png"@.len());
        assert("js"@.len() != "jpg"@.len());
        assert("js"@.len() != "jpeg"@.len());
        assert("js"@.len() != "gif"@.len());
        assert("js"@.len() != "webp"@.len());
        assert("js"@.len() != "svg"@.len());
        assert("js"@.len() != "pdf"@.len());
    }
    assert(kind_of_extension("ts"@) == AttachmentKind::Text) by {
        reveal_strlit("gif");
        reveal_strlit("jpeg");
        reveal_strlit("jpg");
        reveal_strlit("pdf");
        reveal_strlit("png");
        reveal_strlit("svg");
        reveal_strlit("ts");
        reveal_strlit("webp");
        assert("ts"@.len() != "png"@.len());
        assert("ts"@.len() != "jpg"@.len());
        assert("ts"@.len() != "jpeg"@.len());
        assert("ts"@.len() != "gif"@.len());
        assert("ts"@.len() != "webp"@.len());
        assert("ts"@.len() != "svg"@.len());
        assert("ts"@.len() != "pdf"@.len());
    }
    assert(kind_of_extension("jsx"@) == AttachmentKind::Text) by {
        reveal_strlit("gif");
        reveal_strlit("jpeg");
        reveal_strlit("jpg");
        reveal_strlit("jsx");
        reveal_strlit("pdf");
        reveal_strlit("png");
        reveal_strlit("svg");
        reveal_strlit("webp");
        assert("jsx"@[0] != "png"@[0]);
        assert("jsx"@[1] != "jpg"@[1]);
        assert("jsx"@.len() != "jpeg"@.len());
        assert("jsx"@[0] != "gif"@[0]);
        assert("jsx"@.len() != "webp"@.len());
        assert("jsx"@[0] != "svg"@[0]);
        assert("jsx"@[0] != "pdf"@[0]);
    }
    assert(kind_of_extension("tsx"@) == AttachmentKind::Text) by {
        reveal_strlit("gif");
        reveal_strlit("jpeg");
        reveal_strlit("jpg");
        reveal_strlit("pdf");
        reveal_strlit("png");
        reveal_strlit("svg");
        reveal_strlit("tsx");
        reveal_strlit("webp");
        assert("tsx"@[0] != "png"@[0]);
        assert("tsx"@[0] != "jpg"@[0]);
        assert("tsx"@.len() != "jpeg"@.len());
        assert("tsx"@[0] != "gif"@[0]);
        assert("tsx"@.len() != "webp"@.len());
        assert("tsx"@[0] != "svg"@[0]);
        assert("tsx"@[0] != "pdf"@[0]);
    }
    assert(kind_of_extension("json"@) == AttachmentKind::Text) by {
        reveal_strlit("gif");
        reveal_strlit("jpeg");
        reveal_strlit("jpg");
        reveal_strlit("json");
        reveal_strlit("pdf");
        reveal_strlit("png");
        reveal_strlit("svg");
        reveal_strlit("webp");
        assert("json"@.len() != "png"@.len());
        assert("json"@.len() != "jpg"@.len());
        assert("json"@[1] != "jpeg"@[1]);
        assert("json"@.len() != "gif"@.len());
        assert("json"@[0] != "webp"@[0]);
        assert("json"@.len() != "svg"@.len());
        assert("json"@.len() != "pdf"@.len());
    }
    assert(kind_of_extension("yaml"@) == AttachmentKind::Text) by {
        reveal_strlit("gif");
        reveal_strlit("jpeg");
        reveal_strlit("jpg");
        reveal_strlit("pdf");
        reveal_strlit("png");
        reveal_strlit("svg");
        reveal_strlit("webp");
        reveal_strlit("yaml");
        assert("yaml"@.len() != "png"@.len());
        assert("yaml"@.len() != "jpg"@.len());
        assert("yaml"@[0] != "jpeg"@[0]);
        assert("yaml"@.len() != "gif"@.len());
        assert("yaml"@[0] != "webp"@[0]);
        assert("yaml"@.len() != "svg"@.len());
        assert("yaml"@.len() != "pdf"@.len());
    }
    assert(kind_of_extension("yml"@) == AttachmentKind::Text) by {
        reveal_strlit("gif");
        reveal_strlit("jpeg");
        reveal_strlit("jpg");
        reveal_strlit("pdf");
        reveal_strlit("png");
        reveal_strlit("svg");
        reveal_strlit("webp");
        reveal_strlit("yml");
        assert("yml"@[0] != "png"@[0]);
        assert("yml"@[0] != "jpg"@[0]);
        assert("yml"@.len() != "jpeg"@.len());
        assert("yml"@[0] != "gif"@[0]);
        assert("yml"@.len() != "webp"@.len());
        assert("yml"@[0] != "svg"@[0]);
        assert("yml"@[0] != "pdf"@[0]);
    }
    assert(kind_of_extension("toml"@) == AttachmentKind::Text) by {
        reveal_strlit("gif");
        reveal_strlit("jpeg");
        reveal_strlit("jpg");
        reveal_strlit("pdf");
        reveal_strlit("png");
        reveal_strlit("svg");
        reveal_strlit("toml");
        reveal_strlit("webp");
        assert("toml"@.len() != "png"@.len());
        assert("toml"@.len() != "jpg"@.len());
        assert("toml"@[0] != "jpeg"@[0]);
        assert("toml"@.len() != "gif"@.len());
        assert("toml"@[0] != "webp"@[0]);
        assert("toml"@.len() != "svg"@.len());
        assert("toml"@.len() != "pdf"@.len());
    }
    assert(kind_of_extension("html"@) == AttachmentKind::Text) by {
        reveal_strlit("gif");
        reveal_strlit("html");
        reveal_strlit("jpeg");
        reveal_strlit("jpg");
        reveal_strlit("pdf");
        reveal_strlit("png");
        reveal_strlit("svg");
        reveal_strlit("webp");
        assert("html"@.len() != "png"@.len());
        assert("html"@.len() != "jpg"@.len());
        assert("html"@[0] != "jpeg"@[0]);
        assert("html"@.len() != "gif"@.len());
        assert("html"@[0] != "webp"@[0]);
        assert("html"@.len() != "svg"@.len());
        assert("html"@.len() != "pdf"@.len());
    }
    assert(kind_of_extension("css"@) == AttachmentKind::Text) by {
        reveal_strlit("css");
        reveal_strlit("gif");
        reveal_strlit("jpeg");
        reveal_strlit("jpg");
        reveal_strlit("pdf");
        reveal_strlit("png");
        reveal_strlit("svg");
        reveal_strlit("webp");
        assert("css"@[0] != "png"@[0]);
        assert("css"@[0] != "jpg"@[0]);
        assert("css"@.len() != "jpeg"@.len());
        assert("css"@[0] != "gif"@[0]);
        assert("css"@.len() != "webp"@.len());
        assert("css"@[0] != "svg"@[0]);
        assert("css"@[0] != "pdf"@[0]);
    }
    assert(kind_of_extension("scss"@) == AttachmentKind::Text) by {
        reveal_strlit("gif");
        reveal_strlit("jpeg");
        reveal_strlit("jpg");
        reveal_strlit("pdf");
        reveal_strlit("png");
        reveal_strlit("scss");
        reveal_strlit("svg");
        reveal_strlit("webp");
        assert("scss"@.len() != "png"@.len());
        assert("scss"@.len() != "jpg"@.len());
        assert("scss"@[0] != "jpeg"@[0]);
        assert("scss"@.len() != "gif"@.len());
        assert("scss"@[0] != "webp"@[0]);
        assert("scss"@.len() != "svg"@.len());
        assert("scss"@.len() != "pdf"@.len());
    }
    assert(kind_of_extension("sh"@) == AttachmentKind::Text) by {
        reveal_strlit("gif");
        reveal_strlit("jpeg");
        reveal_strlit("jpg");
        reveal_strlit("pdf");
        reveal_strlit("png");
        reveal_strlit("sh");
        reveal_strlit("svg");
        reveal_strlit("webp");
        assert("sh"@.len() != "png"@.len());
        assert("sh"@.len() != "jpg"@.len());
        assert("sh"@.len() != "jpeg"@.len());
        assert("sh"@.len() != "gif"@.len());
        assert("sh"@.len() != "webp"@.len());
        assert("sh"@.len() != "svg"@.len());
        assert("sh"@.len() != "pdf"@.len());
    }
    assert(kind_of_extension("bash"@) == AttachmentKind::Text) by {
        reveal_strlit("bash");
        reveal_strlit("gif");
        reveal_strlit("jpeg");
        reveal_strlit("jpg");
        reveal_strlit("pdf");
        reveal_strlit("png");
        reveal_strlit("svg");
        reveal_strlit("webp");
        assert("bash"@.len() != "png"@.len());
        assert("bash"@.len() != "jpg"@.len());
        assert("bash"@[0] != "jpeg"@[0]);
        assert("bash"@.len() != "gif"@.len());
        assert("bash"@[0] != "webp"@[0]);
        assert("bash"@.len() != "svg"@.len());
        assert("bash"@.len() != "pdf"@.len());
    }
    assert(kind_of_extension("zsh"@) == AttachmentKind::Text) by {
        reveal_strlit("gif");
        reveal_strlit("jpeg");
        reveal_strlit("jpg");
        reveal_strlit("pdf");
        reveal_strlit("png");
        reveal_strlit("svg");
        reveal_strlit("webp");
        reveal_strlit("zsh");
        assert("zsh"@[0] != "png"@[0]);
        assert("zsh"@[0] != "jpg"@[0]);
        assert("zsh"@.len() != "jpeg"@.len());
        assert("zsh"@[0] != "gif"@[0]);
        assert("zsh"@.len() != "webp"@.len());
        assert("zsh"@[0] != "svg"@[0]);
        assert("zsh"@[0] != "pdf"@[0]);
    }
    assert(kind_of_extension("fish"@) == AttachmentKind::Text) by {
        reveal_strlit("fish");
        reveal_strlit("gif");
        reveal_strlit("jpeg");
        reveal_strlit("jpg");
        reveal_strlit("pdf");
        reveal_strlit("png");
        reveal_strlit("svg");
        reveal_strlit("webp");
        assert("fish"@.len() != "png"@.len());
        assert("fish"@.len() != "jpg"@.len());
        assert("fish"@[0] != "jpeg"@[0]);
        assert("fish"@.len() != "gif"@.len());
        assert("fish"@[0] != "webp"@[0]);
        assert("fish"@.len() != "svg"@.len());
        assert("fish"@.len() != "pdf"@.len());
    }
    assert(kind_of_extension("go"@) == AttachmentKind::Text) by {
        reveal_strlit("gif");
        reveal_strlit("go");
        reveal_strlit("jpeg");
        reveal_strlit("jpg");
        reveal_strlit("pdf");
        reveal_strlit("png");
        reveal_strlit("svg");
        reveal_strlit("webp");
        assert("go"@.len() != "png"@.len());
        assert("go"@.len() != "jpg"@.len());
        assert("go"@.len() != "jpeg"@.len());
        assert("go"@.len() != "gif"@.len());
        assert("go"@.len() != "webp"@.len());
        assert("go"@.len() != "svg"@.len());
        assert("go"@.len() != "pdf"@.len());
    }
    assert(kind_of_extension("java"@) == AttachmentKind::Text) by {
        reveal_strlit("gif");
        reveal_strlit("java");
        reveal_strlit("jpeg");
        reveal_strlit("jpg");
        reveal_strlit("pdf");
        reveal_strlit("png");
        reveal_strlit("svg");
        reveal_strlit("webp");
        assert("java"@.len() != "png"@.len());
        assert("java"@.len() != "jpg"@.len());
        assert("java"@[1] != "jpeg"@[1]);
        assert("java"@.len() != "gif"@.len());
        assert("java"@[0] != "webp"@[0]);
        assert("java"@.len() != "svg"@.len());
        assert("java"@.len() != "pdf"@.len());
    }
    assert(kind_of_extension("c"@) == AttachmentKind::Text) by {
        reveal_strlit("c");
        reveal_strlit("gif");
        reveal_strlit("jpeg");
        reveal_strlit("jpg");
        reveal_strlit("pdf");
        reveal_strlit("png");
        reveal_strlit("svg");
        reveal_strlit("webp");
        assert("c"@.len() != "png"@.len());
        assert("c"@.len() != "jpg"@.len());
        assert("c"@.len() != "jpeg"@.len());
        assert("c"@.len() != "gif"@.len());
        assert("c"@.len() != "webp"@.len());
        assert("c"@.len() != "svg"@.len());
        assert("c"@.len() != "pdf"@.len());
    }
    assert(kind_of_extension("cpp"@) == AttachmentKind::Text) by {
        reveal_strlit("cpp");
        reveal_strlit("gif");
        reveal_strlit("jpeg");
        reveal_strlit("jpg");
        reveal_strlit("pdf");
        reveal_strlit("png");
        reveal_strlit("svg");
        reveal_strlit("webp");
        assert("cpp"@[0] != "png"@[0]);
        assert("cpp"@[0] != "jpg"@[0]);
        assert("cpp"@.len() != "jpeg"@.len());
        assert("cpp"@[0] != "gif"@[0]);
        assert("cpp"@.len() != "webp"@.len());
        assert("cpp"@[0] != "svg"@[0]);
        assert("cpp"@[0] != "pdf"@[0]);
    }
    assert(kind_of_extension("h"@) == AttachmentKind::Text) by {
        reveal_strlit("gif");
        reveal_strlit("h");
        reveal_strlit("jpeg");
        reveal_strlit("jpg");
        reveal_strlit("pdf");
        reveal_strlit("png");
        reveal_strlit("svg");
        reveal_strlit("webp");
        assert("h"@.len() != "png"@.len());
        assert("h"@.len() != "jpg"@.len());
        assert("h"@.len() != "jpeg"@.len());
        assert("h"@.len() != "gif"@.len());
        assert("h"@.len() != "webp"@.len());
        assert("h"@.len() != "svg"@.len());
        assert("h"@.len() != "pdf"@.len());
    }
    assert(kind_of_extension("hpp"@) == AttachmentKind::Text) by {
        reveal_strlit("gif");
        reveal_strlit("hpp");
        reveal_strlit("jpeg");
        reveal_strlit("jpg");
        reveal_strlit("pdf");
        reveal_strlit("png");
        reveal_strlit("svg");
        reveal_strlit("webp");
        assert("hpp"@[0] != "png"@[0]);
        assert("hpp"@[0] != "jpg"@[0]);
        assert("hpp"@.len() != "jpeg"@.len());
        assert("hpp"@[0] != "gif"@[0]);
        assert("hpp"@.len() != "webp"@.len());
        assert("hpp"@[0] != "svg"@[0]);
        assert("hpp"@[0] != "pdf"@[0]);
    }
    assert(kind_of_extension("rb"@) == AttachmentKind::Text) by {
        reveal_strlit("gif");
        reveal_strlit("jpeg");
        reveal_strlit("jpg");
        reveal_strlit("pdf");
        reveal_strlit("png");
        reveal_strlit("rb");
        reveal_strlit("svg");
        reveal_strlit("webp");
        assert("rb"@.len() != "png"@.len());
        assert("rb"@.len() != "jpg"@.len());
        assert("rb"@.len() != "jpeg"@.len());
        assert("rb"@.len() != "gif"@.len());
        assert("rb"@.len() != "webp"@.len());
        assert("rb"@.len() != "svg"@.len());
        assert("rb"@.len() != "pdf"@.len());
    }
    assert(kind_of_extension("sql"@) == AttachmentKind::Text) by {
        reveal_strlit("gif");
        reveal_strlit("jpeg");
        reveal_strlit("jpg");
        reveal_strlit("pdf");
        reveal_strlit("png");
        reveal_strlit("sql");
        reveal_strlit("svg");
        reveal_strlit("webp");
        assert("sql"@[0] != "png"@[0]);
        assert("sql"@[0] != "jpg"@[0]);
        assert("sql"@.len() != "jpeg"@.len());
        assert("sql"@[0] != "gif"@[0]);
        assert("sql"@.len() != "webp"@.len());
        assert("sql"@[1] != "svg"@[1]);
        assert("sql"@[0] != "pdf"@[0]);
    }
    assert(kind_of_extension("xml"@) == AttachmentKind::Text) by {
        reveal_strlit("gif");
        reveal_strlit("jpeg");
        reveal_strlit("jpg");
        reveal_strlit("pdf");
        reveal_strlit("png");
        reveal_strlit("svg");
        reveal_strlit("webp");
        reveal_strlit("xml");
        assert("xml"@[0] != "png"@[0]);
        assert("xml"@[0] != "jpg"@[0]);
        assert("xml"@.len() != "jpeg"@.len());
        assert("xml"@[0] != "gif"@[0]);
        assert("xml"@.len() != "webp"@.len());
        assert("xml"@[0] != "svg"@[0]);
        assert("xml"@[0] != "pdf"@[0]);
    }
    assert(kind_of_extension("csv"@) == AttachmentKind::Text) by {
        reveal_strlit("csv");
        reveal_strlit("gif");
        reveal_strlit("jpeg");
        reveal_strlit("jpg");
        reveal_strlit("pdf");
        reveal_strlit("png");
        reveal_strlit("svg");
        reveal_strlit("webp");
        assert("csv"@[0] != "png"@[0]);
        assert("csv"@[0] != "jpg"@[0]);
        assert("csv"@.len() != "jpeg"@.len());
        assert("csv"@[0] != "gif"@[0]);
        assert("csv"@.len() != "webp"@.len());
        assert("csv"@[0] != "svg"@[0]);
        assert("csv"@[0] != "pdf"@[0]);
    }
    assert(kind_of_extension("log"@) == AttachmentKind::Text) by {
        reveal_strlit("gif");
        reveal_strlit("jpeg");
        reveal_strlit("jpg");
        reveal_strlit("log");
        reveal_strlit("pdf");
        reveal_strlit("png");
        reveal_strlit("svg");
        reveal_strlit("webp");
        assert("log"@[0] != "png"@[0]);
        assert("log"@[0] != "jpg"@[0]);
        assert("log"@.len() != "jpeg"@.len());
        assert("log"@[0] != "gif"@[0]);
        assert("log"@.len() != "webp"@.len());
        assert("log"@[0] != "svg"@[0]);
        assert("log"@[0] != "pdf"@[0]);
    }
    assert(kind_of_extension("cfg"@) == AttachmentKind::Text) by {
        reveal_strlit("cfg");
        reveal_strlit("gif");
        reveal_strlit("jpeg");
        reveal_strlit("jpg");
        reveal_strlit("pdf");
        reveal_strlit("png");
        reveal_strlit("svg");
        reveal_strlit("webp");
        assert("cfg"@[0] != "png"@[0]);
        assert("cfg"@[0] != "jpg"@[0]);
        assert("cfg"@.len() != "jpeg"@.len());
        assert("cfg"@[0] != "gif"@[0]);
        assert("cfg"@.len() != "webp"@.len());
        assert("cfg"@[0] != "svg"@[0]);
        assert("cfg"@[0] != "pdf"@[0]);
    }
    assert(kind_of_extension("ini"@) == AttachmentKind::Text) by {
        reveal_strlit("gif");
        reveal_strlit("ini");
        reveal_strlit("jpeg");
        reveal_strlit("jpg");
        reveal_strlit("pdf");
        reveal_strlit("png");
        reveal_strlit("svg");
        reveal_strlit("webp");
        assert("ini"@[0] != "png"@[0]);
        assert("ini"@[0] != "jpg"@[0]);
        assert("ini"@.len() != "jpeg"@.len());
        assert("ini"@[0] != "gif"@[0]);
        assert("ini"@.len() != "webp"@.len());
        assert("ini"@[0] != "svg"@[0]);
        assert("ini"@[0] != "pdf"@[0]);
    }
    assert(kind_of_extension("conf"@) == AttachmentKind::Text) by {
        reveal_strlit("conf");
        reveal_strlit("gif");
        reveal_strlit("jpeg");
        reveal_strlit("jpg");
        reveal_strlit("pdf");
        reveal_strlit("png");
        reveal_strlit("svg");
        reveal_strlit("webp");
        assert("conf"@.len() != "png"@.len());
        assert("conf"@.len() != "jpg"@.len());
        assert("conf"@[0] != "jpeg"@[0]);
        assert("conf"@.len() != "gif"@.len());
        assert("conf"@[0] != "webp"@[0]);
        assert("conf"@.len() != "svg"@.len());
        assert("conf"@.len() != "pdf"@.len());
    }
    assert(kind_of_extension("env"@) == AttachmentKind::Text) by {
        reveal_strlit("env");
        reveal_strlit("gif");
        reveal_strlit("jpeg");
        reveal_strlit("jpg");
        reveal_strlit("pdf");
        reveal_strlit("png");
        reveal_strlit("svg");
        reveal_strlit("webp");
        assert("env"@[0] != "png"@[0]);
        assert("env"@[0] != "jpg"@[0]);
        assert("env"@.len() != "jpeg"@.len());
        assert("env"@[0] != "gif"@[0]);
        assert("env"@.len() != "webp"@.len());
        assert("env"@[0] != "svg"@[0]);
        assert("env"@[0] != "pdf"@[0]);
    }
    assert(kind_of_extension("gitignore"@) == AttachmentKind::Text) by {
        reveal_strlit("gif");
        reveal_strlit("gitignore");
        reveal_strlit("jpeg");
        reveal_strlit("jpg");
        reveal_strlit("pdf");
        reveal_strlit("png");
        reveal_strlit("svg");
        reveal_strlit("webp");
        assert("gitignore"@.len() != "png"@.len());
        assert("gitignore"@.len() != "jpg"@.len());
        assert("gitignore"@.len() != "jpeg"@.len());
        assert("gitignore"@.len() != "gif"@.len());
        assert("gitignore"@.len() != "webp"@.len());
        assert("gitignore"@.len() != "svg"@.len());
        assert("gitignore"@.len() != "pdf"@.len());
    }
    assert(kind_of_extension("dockerignore"@) == AttachmentKind::Text) by {
        reveal_strlit("dockerignore");
        reveal_strlit("gif");
        reveal_strlit("jpeg");
        reveal_strlit("jpg");
        reveal_strlit("pdf");
        reveal_strlit("png");
        reveal_strlit("svg");
        reveal_strlit("webp");
        assert("dockerignore"@.len() != "png"@.len());
        assert("dockerignore"@.len() != "jpg"@.len());
        assert("dockerignore"@.len() != "jpeg"@.len());
        assert("dockerignore"@.len() != "gif"@.len());
        assert("dockerignore"@.len() != "webp"@.len());
        assert("dockerignore"@.len() != "svg"@.len());
        assert("dockerignore"@.len() != "pdf"@.len());
    }
    assert(kind_of_extension("editorconfig"@) == AttachmentKind::Text) by {
        reveal_strlit("editorconfig");
        reveal_strlit("gif");
        reveal_strlit("jpeg");
        reveal_strlit("jpg");
        reveal_strlit("pdf");
        reveal_strlit("png");
        reveal_strlit("svg");
        reveal_strlit("webp");
        assert("editorconfig"@.len() != "png"@.len());
        assert("editorconfig"@.len() != "jpg"@.len());
        assert("editorconfig"@.len() != "jpeg"@.len());
        assert("editorconfig"@.len() != "gif"@.len());
        assert("editorconfig"@.len() != "webp"@.len());
        assert("editorconfig"@.len() != "svg"@.len());
        assert("editorconfig"@.len() != "pdf"@.len());
    }
    assert(kind_of_extension("makefile"@) == AttachmentKind::Text) by {
        reveal_strlit("gif");
        reveal_strlit("jpeg");
        reveal_strlit("jpg");
        reveal_strlit("makefile");
        reveal_strlit("pdf");
        reveal_strlit("png");
        reveal_strlit("svg");
        reveal_strlit("webp");
        assert("makefile"@.len() != "png"@.len());
        assert("makefile"@.len() != "jpg"@.len());
        assert("makefile"@.len() != "jpeg"@.len());
        assert("makefile"@.len() != "gif"@.len());
        assert("makefile"@.len() != "webp"@.len());
        assert("makefile"@.len() != "svg"@.len());
        assert("makefile"@.len() != "pdf"@.len());
    }
    assert(kind_of_extension("cmake"@) == AttachmentKind::Text) by {
        reveal_strlit("cmake");
        reveal_strlit("gif");
        reveal_strlit("jpeg");
        reveal_strlit("jpg");
        reveal_strlit("pdf");
        reveal_strlit("png");
        reveal_strlit("svg");
        reveal_strlit("webp");
        assert("cmake"@.len() != "png"@.len());
        assert("cmake"@.len() != "jpg"@.len());
        assert("cmake"@.len() != "jpeg"@.len());
        assert("cmake"@.len() != "gif"@.len());
        assert("cmake"@.len() != "webp"@.len());
        assert("cmake"@.len() != "svg"@.len());
        assert("cmake"@.len() != "pdf"@.len());
    }
    assert(kind_of_extension("gradle"@) == AttachmentKind::Text) by {
        reveal_strlit("gif");
        reveal_strlit("gradle");
        reveal_strlit("jpeg");
        reveal_strlit("jpg");
        reveal_strlit("pdf");
        reveal_strlit("png");
        reveal_strlit("svg");
        reveal_strlit("webp");
        assert("gradle"@.len() != "png"@.len());
        assert("gradle"@.len() != "jpg"@.len());
        assert("gradle"@.len() != "jpeg"@.len());
        assert("gradle"@.len() != "gif"@.len());
        assert("gradle"@.len() != "webp"@.len());
        assert("gradle"@.len() != "svg"@.len());
        assert("gradle"@.len() != "pdf"@.len());
    }
    assert(kind_of_extension("proto"@) == AttachmentKind::Text) by {
        reveal_strlit("gif");
        reveal_strlit("jpeg");
        reveal_strlit("jpg");
        reveal_strlit("pdf");
        reveal_strlit("png");
        reveal_strlit("proto");
        reveal_strlit("svg");
        reveal_strlit("webp");
        assert("proto"@.len() != "png"@.len());
        assert("proto"@.len() != "jpg"@.len());
        assert("proto"@.len() != "jpeg"@.len());
        assert("proto"@.len() != "gif"@.len());
        assert("proto"@.len() != "webp"@.len());
        assert("proto"@.len() != "svg"@.len());
        assert("proto"@.len() != "pdf"@.len());
    }
    assert(kind_of_extension("zig"@) == AttachmentKind::Text) by {
        reveal_strlit("gif");
        reveal_strlit("jpeg");
        reveal_strlit("jpg");
        reveal_strlit("pdf");
        reveal_strlit("png");
        reveal_strlit("svg");
        reveal_strlit("webp");
        reveal_strlit("zig");
        assert("zig"@[0] != "png"@[0]);
        assert("zig"@[0] != "jpg"@[0]);
        assert("zig"@.len() != "jpeg"@.len());
        assert("zig"@[0] != "gif"@[0]);
        assert("zig"@.len() != "webp"@.len());
        assert("zig"@[0] != "svg"@[0]);
        assert("zig"@[0] != "pdf"@[0]);
    }
    assert(kind_of_extension("nim"@) == AttachmentKind::Text) by {
        reveal_strlit("gif");
        reveal_strlit("jpeg");
        reveal_strlit("jpg");
        reveal_strlit("nim");
        reveal_strlit("pdf");
        reveal_strlit("png");
        reveal_strlit("svg");
        reveal_strlit("webp");
        assert("nim"@[0] != "png"@[0]);
        assert("nim"@[0] != "jpg"@[0]);
        assert("nim"@.len() != "jpeg"@.len());
        assert("nim"@[0] != "gif"@[0]);
        assert("nim"@.len() != "webp"@.len());
        assert("nim"@[0] != "svg"@[0]);
        assert("nim"@[0] != "pdf"@[0]);
    }
    assert(kind_of_extension("lua"@) == AttachmentKind::Text) by {
        reveal_strlit("gif");
        reveal_strlit("jpeg");
        reveal_strlit("jpg");
        reveal_strlit("lua");
        reveal_strlit("pdf");
        reveal_strlit("png");
        reveal_strlit("svg");
        reveal_strlit("webp");
        assert("lua"@[0] != "png"@[0]);
        assert("lua"@[0] != "jpg"@[0]);
        assert("lua"@.len() != "jpeg"@.len());
        assert("lua"@[0] != "gif"@[0]);
        assert("lua"@.len() != "webp"@.len());
        assert("lua"@[0] != "svg"@[0]);
        assert("lua"@[0] != "pdf"@[0]);
    }
    assert(kind_of_extension("r"@) == AttachmentKind::Text) by {
        reveal_strlit("gif");
        reveal_strlit("jpeg");
        reveal_strlit("jpg");
        reveal_strlit("pdf");
        reveal_strlit("png");
        reveal_strlit("r");
        reveal_strlit("svg");
        reveal_strlit("webp");
        assert("r"@.len() != "png"@.len());
        assert("r"@.len() != "jpg"@.len());
        assert("r"@.len() != "jpeg"@.len());
        assert("r"@.len() != "gif"@.len());
        assert("r"@.len() != "webp"@.len());
        assert("r"@.len() != "svg"@.len());
        assert("r"@.len() != "pdf"@.len());
    }
    assert(kind_of_extension("R"@) == AttachmentKind::Text) by {
        reveal_strlit("R");
        reveal_strlit("gif");
        reveal_strlit("jpeg");
        reveal_strlit("jpg");
        reveal_strlit("pdf");
        reveal_strlit("png");
        reveal_strlit("svg");
        reveal_strlit("webp");
        assert("R"@.len() != "png"@.len());
        assert("R"@.len() != "jpg"@.len());
        assert("R"@.len() != "jpeg"@.len());
        assert("R"@.len() != "gif"@.len());
        assert("R"@.len() != "webp"@.len());
        assert("R"@.len() != "svg"@.len());
        assert("R"@.len() != "pdf"@.len());
    }
    assert(kind_of_extension("pl"@) == AttachmentKind::Text) by {
        reveal_strlit("gif");
        reveal_strlit("jpeg");
        reveal_strlit("jpg");
        reveal_strlit("pdf");
        reveal_strlit("pl");
        reveal_strlit("png");
        reveal_strlit("svg");
        reveal_strlit("webp");
        assert("pl"@.len() != "png"@.len());
        assert("pl"@.len() != "jpg"@.len());
        assert("pl"@.len() != "jpeg"@.len());
        assert("pl"@.len() != "gif"@.len());
        assert("pl"@.len() != "webp"@.len());
        assert("pl"@.len() != "svg"@.len());
        assert("pl"@.len() != "pdf"@.len());
    }
    assert(kind_of_extension("pm"@) == AttachmentKind::Text) by {
        reveal_strlit("gif");
        reveal_strlit("jpeg");
        reveal_strlit("jpg");
        reveal_strlit("pdf");
        reveal_strlit("pm");
        reveal_strlit("png");
        reveal_strlit("svg");
        reveal_strlit("webp");
        assert("pm"@.len() != "png"@.len());
        assert("pm"@.len() != "jpg"@.len());
        assert("pm"@.len() != "jpeg"@.len());
        assert("pm"@.len() != "gif"@.len());
        assert("pm"@.len() != "webp"@.len());
        assert("pm"@.len() != "svg"@.len());
        assert("pm"@.len() != "pdf"@.len());
    }
    assert(kind_of_extension("ex"@) == AttachmentKind::Text) by {
        reveal_strlit("ex");
        reveal_strlit("gif");
        reveal_strlit("jpeg");
        reveal_strlit("jpg");
        reveal_strlit("pdf");
        reveal_strlit("png");
        reveal_strlit("svg");
        reveal_strlit("webp");
        assert("ex"@.len() != "png"@.len());
        assert("ex"@.len() != "jpg"@.len());
        assert("ex"@.len() != "jpeg"@.len());
        assert("ex"@.len() != "gif"@.len());
        assert("ex"@.len() != "webp"@.len());
        assert("ex"@.len() != "svg"@.len());
        assert("ex"@.len() != "pdf"@.len());
    }
    assert(kind_of_extension("exs"@) == AttachmentKind::Text) by {
        reveal_strlit("exs");
        reveal_strlit("gif");
        reveal_strlit("jpeg");
        reveal_strlit("jpg");
        reveal_strlit("pdf");
        reveal_strlit("png");
        reveal_strlit("svg");
        reveal_strlit("webp");
        assert("exs"@[0] != "png"@[0]);
        assert("exs"@[0] != "jpg"@[0]);
        assert("exs"@.len() != "jpeg"@.len());
        assert("exs"@[0] != "gif"@[0]);
        assert("exs"@.len() != "webp"@.len());
        assert("exs"@[0] != "svg"@[0]);
        assert("exs"@[0] != "pdf"@[0]);
    }
    assert(kind_of_extension("erl"@) == AttachmentKind::Text) by {
        reveal_strlit("erl");
        reveal_strlit("gif");
        reveal_strlit("jpeg");
        reveal_strlit("jpg");
        reveal_strlit("pdf");
        reveal_strlit("png");
        reveal_strlit("svg");
        reveal_strlit("webp");
        assert("erl"@[0] != "png"@[0]);
        assert("erl"@[0] != "jpg"@[0]);
        assert("erl"@.len() != "jpeg"@.len());
        assert("erl"@[0] != "gif"@[0]);
        assert("erl"@.len() != "webp"@.len());
        assert("erl"@[0] != "svg"@[0]);
        assert("erl"@[0] != "pdf"@[0]);
    }
    assert(kind_of_extension("hs"@) == AttachmentKind::Text) by {
        reveal_strlit("gif");
        reveal_strlit("hs");
        reveal_strlit("jpeg");
        reveal_strlit("jpg");
        reveal_strlit("pdf");
        reveal_strlit("png");
        reveal_strlit("svg");
        reveal_strlit("webp");
        assert("hs"@.len() != "png"@.len());
        assert("hs"@.len() != "jpg"@.len());
        assert("hs"@.len() != "jpeg"@.len());
        assert("hs"@.len() != "gif"@.len());
        assert("hs"@.len() != "webp"@.len());
        assert("hs"@.len() != "svg"@.len());
        assert("hs"@.len() != "pdf"@.len());
    }
    assert(kind_of_extension("ml"@) == AttachmentKind::Text) by {
        reveal_strlit("gif");
        reveal_strlit("jpeg");
        reveal_strlit("jpg");
        reveal_strlit("ml");
        reveal_strlit("pdf");
        reveal_strlit("png");
        reveal_strlit("svg");
        reveal_strlit("webp");
        assert("ml"@.len() != "png"@.len());
        assert("ml"@.len() != "jpg"@.len());
        assert("ml"@.len() != "jpeg"@.len());
        assert("ml"@.len() != "gif"@.len());
        assert("ml"@.len() != "webp"@.len());
        assert("ml"@.len() != "svg"@.len());
        assert("ml"@.len() != "pdf"@.len());
    }
    assert(kind_of_extension("mli"@) == AttachmentKind::Text) by {
        reveal_strlit("gif");
        reveal_strlit("jpeg");
        reveal_strlit("jpg");
        reveal_strlit("mli");
        reveal_strlit("pdf");
        reveal_strlit("png");
        reveal_strlit("svg");
        reveal_strlit("webp");
        assert("mli"@[0] != "png"@[0]);
        assert("mli"@[0] != "jpg"@[0]);
        assert("mli"@.len() != "jpeg"@.len());
        assert("mli"@[0] != "gif"@[0]);
        assert("mli"@.len() != "webp"@.len());
        assert("mli"@[0] != "svg"@[0]);
        assert("mli"@[0] != "pdf"@[0]);
    }
    assert(kind_of_extension("v"@) == AttachmentKind::Text) by {
        reveal_strlit("gif");
        reveal_strlit("jpeg");
        reveal_strlit("jpg");
        reveal_strlit("pdf");
        reveal_strlit("png");
        reveal_strlit("svg");
        reveal_strlit("v");
        reveal_strlit("webp");
        assert("v"@.len() != "png"@.len());
        assert("v"@.len() != "jpg"@.len());
        assert("v"@.len() != "jpeg"@.len());
        assert("v"@.len() != "gif"@.len());
        assert("v"@.len() != "webp"@.len());
        assert("v"@.len() != "svg"@.len());
        assert("v"@.len() != "pdf"@.len());
    }
    assert(kind_of_extension("vhd"@) == AttachmentKind::Text) by {
        reveal_strlit("gif");
        reveal_strlit("jpeg");
        reveal_strlit("jpg");
        reveal_strlit("pdf");
        reveal_strlit("png");
        reveal_strlit("svg");
        reveal_strlit("vhd");
        reveal_strlit("webp");
        assert("vhd"@[0] != "png"@[0]);
        assert("vhd"@[0] != "jpg"@[0]);
        assert("vhd"@.len() != "jpeg"@.len());
        assert("vhd"@[0] != "gif"@[0]);
        assert("vhd"@.len() != "webp"@.len());
        assert("vhd"@[0] != "svg"@[0]);
        assert("vhd"@[0] != "pdf"@[0]);
    }
    assert(kind_of_extension("asm"@) == AttachmentKind::Text) by {
        reveal_strlit("asm");
        reveal_strlit("gif");
        reveal_strlit("jpeg");
        reveal_strlit("jpg");
        reveal_strlit("pdf");
        reveal_strlit("png");
        reveal_strlit("svg");
        reveal_strlit("webp");
        assert("asm"@[0] != "png"@[0]);
        assert("asm"@[0] != "jpg"@[0]);
        assert("asm"@.len() != "jpeg"@.len());
        assert("asm"@[0] != "gif"@[0]);
        assert("asm"@.len() != "webp"@.len());
        assert("asm"@[0] != "svg"@[0]);
        assert("asm"@[0] != "pdf"@[0]);
    }
    assert(kind_of_extension("s"@) == AttachmentKind::Text) by {
        reveal_strlit("gif");
        reveal_strlit("jpeg");
        reveal_strlit("jpg");
        reveal_strlit("pdf");
        reveal_strlit("png");
        reveal_strlit("s");
        reveal_strlit("svg");
        reveal_strlit("webp");
        assert("s"@.len() != "png"@.len());
        assert("s"@.len() != "jpg"@.len());
        assert("s"@.len() != "jpeg"@.len());
        assert("s"@.len() != "gif"@.len());
        assert("s"@.len() != "webp"@.len());
        assert("s"@.len() != "svg"@.len());
        assert("s"@.len() != "pdf"@.len());
    }
    assert(kind_of_extension("nix"@) == AttachmentKind::Text) by {
        reveal_strlit("gif");
        reveal_strlit("jpeg");
        reveal_strlit("jpg");
        reveal_strlit("nix");
        reveal_strlit("pdf");
        reveal_strlit("png");
        reveal_strlit("svg");
        reveal_strlit("webp");
        assert("nix"@[0] != "png"@[0]);
        assert("nix"@[0] != "jpg"@[0]);
        assert("nix"@.len() != "jpeg"@.len());
        assert("nix"@[0] != "gif"@[0]);
        assert("nix"@.len() != "webp"@.len());
        assert("nix"@[0] != "svg"@[0]);
        assert("nix"@[0] != "pdf"@[0]);
    }
    assert(kind_of_extension("lock"@) == AttachmentKind::Text) by {
        reveal_strlit("gif");
        reveal_strlit("jpeg");
        reveal_strlit("jpg");
        reveal_strlit("lock");
        reveal_strlit("pdf");
        reveal_strlit("png");
        reveal_strlit("svg");
        reveal_strlit("webp");
        assert("lock"@.len() != "png"@.len());
        assert("lock"@.len() != "jpg"@.len());
        assert("lock"@[0] != "jpeg"@[0]);
        assert("lock"@.len() != "gif"@.len());
        assert("lock"@[0] != "webp"@[0]);
        assert("lock"@.len() != "svg"@.len());
        assert("lock"@.len() != "pdf"@.len());
    }
    assert(kind_of_extension("ipynb"@) == AttachmentKind::Text) by {
        reveal_strlit("gif");
        reveal_strlit("ipynb");
        reveal_strlit("jpeg");
        reveal_strlit("jpg");
        reveal_strlit("pdf");
        reveal_strlit("png");
        reveal_strlit("svg");
        reveal_strlit("webp");
        assert("ipynb"@.len() != "png"@.len());
        assert("ipynb"@.len() != "jpg"@.len());
        assert("ipynb"@.len() != "jpeg"@.len());
        assert("ipynb"@.len() != "gif"@.len());
        assert("ipynb"@.len() != "webp"@.len());
        assert("ipynb"@.len() != "svg"@.len());
        assert("ipynb"@.len() != "pdf"@.len());
    }
}

/// How the file at a path is attached.
pub open spec fn kind_of(path: Seq<char>) -> AttachmentKind {
    kind_of_extension(lower_extension(path))
}

/// How the file at a path is attached.
pub fn attachment_kind(path: &str) -> (k: AttachmentKind)
    ensures
        k == kind_of(path@),
{
    let e = path_extension(path);
    if image_ext(e.as_str()) {
        AttachmentKind::Image
    } else if str_eq(e.as_str(), "pdf") {
        AttachmentKind::Pdf
    } else if text_ext(e.as_str()) {
        AttachmentKind::Text
    } else {
        AttachmentKind::Other
    }
}

/// What mime_guess's `from_path(path).first_or_octet_stream()` gives: the
/// media type registered for the path's extension, else
/// `application/octet-stream`.
pub uninterp spec fn mime_of(path: Seq<char>) -> Seq<char>;

/// The media type of a file by its path (mime_guess), as text.
#[verifier::external_body]
fn guess_mime(path: &str) -> (r: String)
    ensures
        r@ == mime_of(path@),
{
    mime_guess::from_path(path).first_or_octet_stream().to_string()
}

/// A file sent as an image: a base64 `data:` URL of its bytes.
pub open spec fn image_part(path: Seq<char>, bytes: Seq<u8>) -> PartView {
    PartView::ImageUrl("data:"@ + mime_of(path) + ";base64,"@ + base64(bytes))
}

/// The parts of a file sent as an image.
pub fn image_parts(path: &str, bytes: &[u8]) -> (r: Vec<ContentPart>)
    ensures
        part_views(r@) == seq![image_part(path@, bytes@)],
{
    let a = cat("data:", guess_mime(path).as_str());
    let b = cat(a.as_str(), ";base64,");
    let url = cat(b.as_str(), base64_encode(bytes).as_str());
    let mut r: Vec<ContentPart> = Vec::new();
    r.push(ContentPart::ImageUrl { url });
    proof {
        assert(part_views(r@) =~= seq![image_part(path@, bytes@)]);
    }
    r
}

/// A text file between a header naming it and a footer.
pub open spec fn text_block(path: Seq<char>, content: Seq<char>) -> Seq<char> {
    "--- Attachment: "@ + path + " ---\n"@ + content + "\n--- End Attachment ---"@
}

/// The parts of a text file: its text framed by a header and a footer, or
/// an error where the bytes are not UTF-8.
pub open spec fn text_result(path: Seq<char>, bytes: Seq<u8>) -> Result<Seq<PartView>, Seq<char>> {
    if valid_utf8(bytes) {
        Ok(seq![PartView::Text(text_block(path, decode_utf8(bytes)))])
    } else {
        Err("Failed to read text file"@)
    }
}

/// The parts of a result, or its error, as plain values.
pub open spec fn parts_result(r: Result<Vec<ContentPart>, String>) -> Result<Seq<PartView>, Seq<char>> {
    match r {
        Ok(v) => Ok(part_views(v@)),
        Err(e) => Err(e@),
    }
}

/// The parts of a text file.
pub fn text_parts(path: &str, bytes: Vec<u8>) -> (r: Result<Vec<ContentPart>, String>)
    ensures
        parts_result(r) == text_result(path@, bytes@),
{
    match utf8_text(bytes) {
        Some(content) => {
            let a = cat("--- Attachment: ", path);
            let b = cat(a.as_str(), " ---\n");
            let c = cat(b.as_str(), content.as_str());
            let text = cat(c.as_str(), "\n--- End Attachment ---");
            let mut r: Vec<ContentPart> = Vec::new();
            r.push(ContentPart::Text { text });
            proof {
                assert(part_views(r@) =~= seq![PartView::Text(text_block(path@, content@))]);
            }
            Ok(r)
        },
        None => Err(owned("Failed to read text file")),
    }
}

/// The parts of a PDF rendered to PNG pages: for each page, a line naming
/// it and the page as an image.
pub open spec fn page_parts(path: Seq<char>, pages: Seq<Seq<u8>>) -> Seq<PartView>
    decreases pages.len(),
{
    if pages.len() == 0 {
        Seq::empty()
    } else {
        let n = pages.len();
        page_parts(path, pages.drop_last()) + seq![
            PartView::Text("--- PDF Page "@ + decimal(n) + " of "@ + path + " ---"@),
            PartView::ImageUrl("data:image/png;base64,"@ + base64(pages.last())),
        ]
    }
}

/// The views of a sequence of byte vectors.
pub open spec fn byte_views(v: Seq<Vec<u8>>) -> Seq<Seq<u8>> {
    v.map_values(|b: Vec<u8>| b@)
}

/// The parts of a PDF whose pages were rendered to PNG images, in page order.
pub fn pdf_page_parts(path: &str, pages: &Vec<Vec<u8>>) -> (r: Vec<ContentPart>)
    ensures
        part_views(r@) == page_parts(path@, byte_views(pages@)),
{
    let mut r: Vec<ContentPart> = Vec::new();
    let n = pages.len();
    let mut i: usize = 0;
    while i < n
        invariant
            i <= n == pages@.len(),
            part_views(r@) == page_parts(path@, byte_views(pages@).take(i as int)),
        decreases n - i,
    {
        let num = decimal_string((i + 1) as u128);
        let a = cat("--- PDF Page ", num.as_str());
        let b = cat(a.as_str(), " of ");
        let c = cat(b.as_str(), path);
        let head = cat(c.as_str(), " ---");
        let url = cat("data:image/png;base64,", base64_encode(pages[i].as_slice()).as_str());
        let ghost prev = r@;
        r.push(ContentPart::Text { text: head });
        r.push(ContentPart::ImageUrl { url });
        proof {
            let bs = byte_views(pages@);
            assert(bs.take(i + 1).drop_last() =~= bs.take(i as int));
            assert(bs.take(i + 1).len() == i + 1);
            assert(part_views(r@) =~= part_views(prev) + seq![
                PartView::Text("--- PDF Page "@ + decimal((i + 1) as nat) + " of "@ + path@ + " ---"@),
                PartView::ImageUrl("data:image/png;base64,"@ + base64(bs[i as int])),
            ]);
        }
        i = i + 1;
    }
    proof {
        assert(byte_views(pages@).take(n as int) =~= byte_views(pages@));
    }
    r
}

/// The text a line of a PDF content stream shows: a line that is one
/// parenthesised string gives its inside and a space; other lines nothing.
pub open spec fn shown_text(l: Seq<char>) -> Seq<char> {
    if l.len() >= 2 && l[0] == '(' && l.last() == ')' {
        l.subrange(1, l.len() - 1) + " "@
    } else {
        Seq::empty()
    }
}

/// The texts shown by a run of lines, one after the other.
pub open spec fn shown_texts(ls: Seq<Seq<char>>) -> Seq<char>
    decreases ls.len(),
{
    if ls.len() == 0 {
        Seq::empty()
    } else {
        shown_texts(ls.drop_last()) + shown_text(ls.last())
    }
}

/// The text of a page's content stream: the inside of each line that is a
/// parenthesised string, each followed by a space.
pub fn extract_text_from_content(content: &str) -> (r: String)
    ensures
        r@ == shown_texts(lines(content@)),
{
    let ls = lines_of(&chars_of(content));
    let n = ls.len();
    let mut out: Vec<char> = Vec::new();
    let mut i: usize = 0;
    while i < n
        invariant
            i <= n == ls@.len(),
            crate::text::views(ls@) == lines(content@),
            out@ == shown_texts(crate::text::views(ls@).take(i as int)),
        decreases n - i,
    {
        let l = &ls[i];
        let ghost prev = out@;
        if l.len() >= 2 && l[0] == '(' && l[l.len() - 1] == ')' {
            let inner = sub_chars(l.as_slice(), 1, l.len() - 1);
            let mut k: usize = 0;
            while k < inner.len()
                invariant
                    k <= inner@.len(),
                    out@ == prev + inner@.take(k as int),
                decreases inner.len() - k,
            {
                out.push(inner[k]);
                proof {
                    assert(inner@.take(k + 1) =~= inner@.take(k as int).push(inner@[k as int]));
                }
                k = k + 1;
            }
            out.push(' ');
            proof {
                reveal_strlit(" ");
                assert(inner@.take(inner@.len() as int) =~= inner@);
                assert(out@ =~= prev + shown_text(l@));
            }
        } else {
            proof {
                assert(shown_text(l@) =~= Seq::<char>::empty());
                assert(out@ =~= prev + shown_text(l@));
            }
        }
        proof {
            let vs = crate::text::views(ls@);
            assert(vs.take(i + 1).drop_last() =~= vs.take(i as int));
        }
        i = i + 1;
    }
    proof {
        assert(crate::text::views(ls@).take(n as int) =~= crate::text::views(ls@));
    }
    string_of(out.as_slice())
}

/// One page of a PDF as lopdf reads it: its number and its content stream,
/// if that could be read.
pub open spec fn page_text(n: u32, content: Option<Seq<u8>>) -> Seq<char> {
    match content {
        Some(b) => if valid_utf8(b) {
            "--- Page "@ + decimal(n as nat) + " ---\n"@ + shown_texts(lines(decode_utf8(b)))
                + "\n\n"@
        } else {
            Seq::empty()
        },
        None => Seq::empty(),
    }
}

/// The views of pages with their content streams.
pub open spec fn page_views(v: Seq<(u32, Option<Vec<u8>>)>) -> Seq<(u32, Option<Seq<u8>>)> {
    v.map_values(
        |p: (u32, Option<Vec<u8>>)|
            (
                p.0,
                match p.1 {
                    Some(b) => Some(b@),
                    None => None,
                },
            ),
    )
}

/// The texts of a run of pages, one after the other.
pub open spec fn pages_text(ps: Seq<(u32, Option<Seq<u8>>)>) -> Seq<char>
    decreases ps.len(),
{
    if ps.len() == 0 {
        Seq::empty()
    } else {
        pages_text(ps.drop_last()) + page_text(ps.last().0, ps.last().1)
    }
}

/// The text part of a PDF read without rendering: the text shown on each
/// page, under a line naming the page, or a note that none was found.
pub open spec fn pdf_text_part(path: Seq<char>, ps: Seq<(u32, Option<Seq<u8>>)>) -> PartView {
    let t = pages_text(ps);
    if t.len() == 0 {
        PartView::Text("(No text could be extracted from PDF: "@ + path + ")"@)
    } else {
        PartView::Text(t)
    }
}

/// The text parts of a PDF from its pages' content streams, in page order.
pub fn pdf_text_parts(path: &str, pages: &Vec<(u32, Option<Vec<u8>>)>) -> (r: Vec<ContentPart>)
    ensures
        part_views(r@) == seq![pdf_text_part(path@, page_views(pages@))],
{
    let mut all: String = String::new();
    let n = pages.len();
    let mut i: usize = 0;
    while i < n
        invariant
            i <= n == pages@.len(),
            all@ == pages_text(page_views(pages@).take(i as int)),
        decreases n - i,
    {
        let num = pages[i].0;
        let text = match &pages[i].1 {
            Some(b) => match utf8_text(b.clone()) {
                Some(content) => {
                    let a = cat("--- Page ", decimal_string(num as u128).as_str());
                    let c = cat(a.as_str(), " ---\n");
                    let d = cat(c.as_str(), extract_text_from_content(content.as_str()).as_str());
                    cat(d.as_str(), "\n\n")
                },
                None => String::new(),
            },
            None => String::new(),
        };
        proof {
            let ps = page_views(pages@);
            assert(ps.take(i + 1).drop_last() =~= ps.take(i as int));
            assert(text@ == page_text(ps[i as int].0, ps[i as int].1));
        }
        all = cat(all.as_str(), text.as_str());
        i = i + 1;
    }
    proof {
        assert(page_views(pages@).take(n as int) =~= page_views(pages@));
    }
    let text = if all.as_str().is_empty() {
        let a = cat("(No text could be extracted from PDF: ", path);
        cat(a.as_str(), ")")
    } else {
        all
    };
    let mut r: Vec<ContentPart> = Vec::new();
    r.push(ContentPart::Text { text });
    proof {
        assert(part_views(r@) =~= seq![pdf_text_part(path@, page_views(pages@))]);
    }
    r
}

/// Whether lopdf's `Document::load_mem` reads these bytes as a PDF.
pub uninterp spec fn pdf_loads(bytes: Seq<u8>) -> bool;

/// What lopdf gives for the pages of the PDF these bytes hold, in page
/// order: each page's content (`Document::get_page_content`, its content
/// streams decoded and joined, or nothing where they cannot be read).
pub uninterp spec fn pdf_page_texts(bytes: Seq<u8>) -> Seq<Seq<u8>>;

pub open spec fn page_byte_views(v: Seq<Vec<u8>>) -> Seq<Seq<u8>> {
    v.map_values(|b: Vec<u8>| b@)
}

/// Reads a PDF from its bytes with lopdf (`Document::load_mem`) and gives
/// the content of each of its pages in page order (`get_pages`, then
/// `get_page_content` for each); nothing where lopdf cannot read the bytes.
/// Both depend on the bytes alone.  lopdf slices its buffer at offsets read
/// from the file; whether every malformed file gives an error rather than a
/// panic is not stated.
#[verifier::external_body]
fn pdf_document_pages(bytes: &[u8]) -> (r: Option<Vec<Vec<u8>>>)
    ensures
        r is Some <==> pdf_loads(bytes@),
        r matches Some(ps) ==> page_byte_views(ps@) == pdf_page_texts(bytes@),
{
    let doc = lopdf::Document::load_mem(bytes).ok()?;
    Some(doc.get_pages().values().map(|id| doc.get_page_content(*id)).collect())
}

/// A PDF's pages as lopdf reads them from the file's bytes: each page's
/// content, numbered from 1 in page order; nothing where lopdf cannot load
/// the bytes.
pub fn pdf_page_contents(bytes: &[u8]) -> (r: Option<Vec<(u32, Option<Vec<u8>>)>>)
    ensures
        r is Some <==> pdf_loads(bytes@),
        r matches Some(ps) ==> page_views(ps@) == Seq::new(
            pdf_page_texts(bytes@).len(),
            |i: int| (((i + 1) as u32), Some(pdf_page_texts(bytes@)[i])),
        ),
{
    let pages = match pdf_document_pages(bytes) {
        Some(p) => p,
        None => return None,
    };
    let ghost texts = pdf_page_texts(bytes@);
    let mut out: Vec<(u32, Option<Vec<u8>>)> = Vec::new();
    let n = pages.len();
    let mut i: usize = 0;
    let mut num: u32 = 0;
    while i < n
        invariant
            i <= n == pages@.len() == texts.len(),
            page_byte_views(pages@) == texts,
            num == (i as u32),
            page_views(out@) == Seq::new(i as nat, |k: int| (((k + 1) as u32), Some(texts[k]))),
        decreases n - i,
    {
        let ghost old_num = num;
        num = if num == u32::MAX {
            0
        } else {
            num + 1
        };
        let ghost prev = out@;
        out.push((num, Some(pages[i].clone())));
        proof {
            assert(pages@[i as int]@ == texts[i as int]);
            assert(num == ((i + 1) as u32)) by (bit_vector)
                requires
                    old_num == (i as u32),
                    num == (if old_num == 0xffff_ffffu32 {
                        0u32
                    } else {
                        (old_num + 1) as u32
                    }),
            ;
            assert(page_views(out@) =~= page_views(prev).push((num, Some(texts[i as int]))));
            assert(Seq::new((i + 1) as nat, |k: int| (((k + 1) as u32), Some(texts[k]))) =~= Seq::new(
                i as nat,
                |k: int| (((k + 1) as u32), Some(texts[k])),
            ).push((((i + 1) as u32), Some(texts[i as int]))));
        }
        i = i + 1;
    }
    Some(out)
}

/// What was read for an attachment at a path.
pub enum FileData {
    /// Nothing exists at the path.
    Missing,
    /// The file exists, but reading it failed.
    Unreadable,
    /// The file's bytes.
    Bytes(Vec<u8>),
    /// A PDF's pages rendered to PNG images, in page order.
    PdfPages(Vec<Vec<u8>>),
    /// A PDF that could not be rendered: the number of each page and its
    /// content stream where that could be read, as lopdf gives them.
    PdfText(Vec<(u32, Option<Vec<u8>>)>),
    /// A PDF that could neither be rendered nor loaded.
    PdfUnloadable,
}

/// What was read, as plain values.
pub enum FileDataView {
    Missing,
    Unreadable,
    Bytes(Seq<u8>),
    PdfPages(Seq<Seq<u8>>),
    PdfText(Seq<(u32, Option<Seq<u8>>)>),
    PdfUnloadable,
}

impl View for FileData {
    type V = FileDataView;

    open spec fn view(&self) -> FileDataView {
        match self {
            FileData::Missing => FileDataView::Missing,
            FileData::Unreadable => FileDataView::Unreadable,
            FileData::Bytes(b) => FileDataView::Bytes(b@),
            FileData::PdfPages(p) => FileDataView::PdfPages(byte_views(p@)),
            FileData::PdfText(p) => FileDataView::PdfText(page_views(p@)),
            FileData::PdfUnloadable => FileDataView::PdfUnloadable,
        }
    }
}

/// The parts of a file of a kind, from what was read of it; where that is
/// not what the kind is read as, the read failed.
pub open spec fn kind_parts(path: Seq<char>, kind: AttachmentKind, data: FileDataView) -> Result<
    Seq<PartView>,
    Seq<char>,
> {
    match kind {
        AttachmentKind::Image => match data {
            FileDataView::Bytes(b) => Ok(seq![image_part(path, b)]),
            _ => Err("Failed to read image file"@),
        },
        AttachmentKind::Text => match data {
            FileDataView::Bytes(b) => text_result(path, b),
            _ => Err("Failed to read text file"@),
        },
        AttachmentKind::Pdf => match data {
            FileDataView::PdfPages(p) => Ok(page_parts(path, p)),
            FileDataView::PdfText(ps) => Ok(seq![pdf_text_part(path, ps)]),
            _ => Err("Failed to load PDF with lopdf"@),
        },
        AttachmentKind::Other => match data {
            FileDataView::Bytes(b) => Ok(seq![image_part(path, b)]),
            _ => Err("Failed to read file"@),
        },
    }
}

/// The attachment for a path, from what was read there: its name and parts,
/// or the error that stops it.
pub open spec fn load_result(path: Seq<char>, data: FileDataView) -> Result<
    (Seq<char>, Seq<PartView>),
    Seq<char>,
> {
    match data {
        FileDataView::Missing => Err("File not found: "@ + path),
        _ => match kind_parts(path, kind_of(path), data) {
            Ok(ps) => Ok((attachment_name(path), ps)),
            Err(e) => Err(e),
        },
    }
}

/// An attachment, or its error, as plain values.
pub open spec fn attachment_result(r: Result<Attachment, String>) -> Result<
    (Seq<char>, Seq<PartView>),
    Seq<char>,
> {
    match r {
        Ok(a) => Ok((a.filename@, part_views(a.parts@))),
        Err(e) => Err(e@),
    }
}

/// The attachment for a path, from what was read there: images and other
/// files as a base64 `data:` URL, text files framed by a header and footer,
/// PDFs as rendered pages or, failing that, as the text of their pages.
pub fn load_attachment(path: &str, data: FileData) -> (r: Result<Attachment, String>)
    ensures
        attachment_result(r) == load_result(path@, data@),
{
    if let FileData::Missing = data {
        return Err(cat("File not found: ", path));
    }
    let kind = attachment_kind(path);
    let parts: Result<Vec<ContentPart>, String> = match kind {
        AttachmentKind::Image => match data {
            FileData::Bytes(b) => Ok(image_parts(path, b.as_slice())),
            _ => Err(owned("Failed to read image file")),
        },
        AttachmentKind::Text => match data {
            FileData::Bytes(b) => text_parts(path, b),
            _ => Err(owned("Failed to read text file")),
        },
        AttachmentKind::Pdf => match data {
            FileData::PdfPages(p) => Ok(pdf_page_parts(path, &p)),
            FileData::PdfText(ps) => Ok(pdf_text_parts(path, &ps)),
            _ => Err(owned("Failed to load PDF with lopdf")),
        },
        AttachmentKind::Other => match data {
            FileData::Bytes(b) => Ok(image_parts(path, b.as_slice())),
            _ => Err(owned("Failed to read file")),
        },
    };
    match parts {
        Ok(parts) => Ok(Attachment { filename: attachment_filename(path), parts }),
        Err(e) => Err(e),
    }
}

/// Whether regex 1.x compiles a pattern (`Regex::new` succeeds).
pub uninterp spec fn regex_compiles(pattern: Seq<char>) -> bool;

/// What regex 1.x's `captures_iter(text)` gives for a pattern: for each
/// successive non-overlapping match, the text of every capture group, group
/// 0 the whole match and `None` for a group that took no part.
pub uninterp spec fn regex_captures(pattern: Seq<char>, text: Seq<char>) -> Seq<
    Seq<Option<Seq<char>>>,
>;

/// What regex 1.x's `replace_all(text, replacement)` gives for a pattern.
pub uninterp spec fn regex_replace_all(pattern: Seq<char>, text: Seq<char>, replacement: Seq<char>) -> Seq<char>;

/// The views of the capture groups of a match.
pub open spec fn group_views(v: Seq<Option<String>>) -> Seq<Option<Seq<char>>> {
    v.map_values(
        |g: Option<String>|
            match g {
                Some(t) => Some(t@),
                None => None,
            },
    )
}

/// The views of the capture groups of each match.
pub open spec fn capture_views(v: Seq<Vec<Option<String>>>) -> Seq<Seq<Option<Seq<char>>>> {
    v.map_values(|c: Vec<Option<String>>| group_views(c@))
}

/// The capture groups of each match of a pattern in a text
/// (`regex::Regex::new`, then `captures_iter`); nothing where the pattern does
/// not compile.
#[verifier::external_body]
fn captures_in(pattern: &str, text: &str) -> (r: Option<Vec<Vec<Option<String>>>>)
    ensures
        match r {
            Some(c) => regex_compiles(pattern@) && capture_views(c@) == regex_captures(pattern@, text@),
            None => !regex_compiles(pattern@),
        },
{
    let re = regex::Regex::new(pattern).ok()?;
    Some(
        re.captures_iter(text).map(
            |c| c.iter().map(|m| m.map(|m| m.as_str().to_string())).collect(),
        ).collect(),
    )
}

/// A text with every match of a pattern replaced (`regex::Regex::new`, then
/// `replace_all`); nothing where the pattern does not compile.
#[verifier::external_body]
fn replace_all_in(pattern: &str, text: &str, replacement: &str) -> (r: Option<String>)
    ensures
        match r {
            Some(t) => regex_compiles(pattern@) && t@ == regex_replace_all(pattern@, text@, replacement@),
            None => !regex_compiles(pattern@),
        },
{
    let re = regex::Regex::new(pattern).ok()?;
    Some(re.replace_all(text, replacement).to_string())
}

/// How an attachment is named inside a message: `+` and a path that ends
/// in an extension of one to ten word characters.
pub open spec fn attachment_pattern() -> Seq<char> {
    "\\+([\\w./-]+\\.\\w{1,10})"@
}

/// The first capture group of each match, where every match has one.
pub open spec fn first_groups(caps: Seq<Seq<Option<Seq<char>>>>) -> Option<Seq<Seq<char>>>
    decreases caps.len(),
{
    if caps.len() == 0 {
        Some(Seq::empty())
    } else {
        match (first_groups(caps.drop_last()), if caps.last().len() > 1 {
            caps.last()[1]
        } else {
            None
        }) {
            (Some(gs), Some(g)) => Some(gs.push(g)),
            _ => None,
        }
    }
}

/// A message split into its text without attachment references (trimmed)
/// and the referenced paths in order; nothing where the pattern engine
/// fails, which the message text cannot cause.
pub open spec fn split_attachments(text: Seq<char>) -> Option<(Seq<char>, Seq<Seq<char>>)> {
    let p = attachment_pattern();
    if regex_compiles(p) {
        match first_groups(regex_captures(p, text)) {
            Some(paths) => Some((trim(regex_replace_all(p, text, Seq::empty())), paths)),
            None => None,
        }
    } else {
        None
    }
}

/// The first capture group of each match.
fn first_groups_exec(caps: &Vec<Vec<Option<String>>>) -> (r: Option<Vec<String>>)
    ensures
        match r {
            Some(v) => first_groups(capture_views(caps@)) == Some(string_views(v@)),
            None => first_groups(capture_views(caps@)) is None,
        },
{
    let ghost cv = capture_views(caps@);
    let mut out: Vec<String> = Vec::new();
    let n = caps.len();
    let mut i: usize = 0;
    while i < n
        invariant
            i <= n == caps@.len(),
            cv == capture_views(caps@),
            first_groups(cv.take(i as int)) == Some(string_views(out@)),
        decreases n - i,
    {
        proof {
            assert(cv.take(i + 1).drop_last() =~= cv.take(i as int));
        }
        let c = &caps[i];
        if c.len() > 1 {
            match &c[1] {
                Some(g) => {
                    let ghost prev = out@;
                    out.push(g.clone());
                    proof {
                        assert(string_views(out@) =~= string_views(prev).push(g@));
                    }
                },
                None => {
                    proof {
                        lemma_first_groups_none(cv, i as int);
                    }
                    return None;
                },
            }
        } else {
            proof {
                lemma_first_groups_none(cv, i as int);
            }
            return None;
        }
        i = i + 1;
    }
    proof {
        assert(cv.take(n as int) =~= cv);
    }
    Some(out)
}

/// Once a match lacks its first group, no longer run has all of them.
proof fn lemma_first_groups_none(caps: Seq<Seq<Option<Seq<char>>>>, i: int)
    requires
        0 <= i < caps.len(),
        first_groups(caps.take(i + 1)) is None,
    ensures
        first_groups(caps) is None,
    decreases caps.len() - i,
{
    if i + 1 < caps.len() {
        assert(caps.take(i + 2).drop_last() =~= caps.take(i + 1));
        lemma_first_groups_none(caps, i + 1);
    } else {
        assert(caps.take(i + 1) =~= caps);
    }
}

/// A message split into its text without `+path` attachment references,
/// trimmed, and the referenced paths in order.
pub fn parse_attachments_from_text(text: &str) -> (r: Option<(String, Vec<String>)>)
    ensures
        match r {
            Some((clean, paths)) => split_attachments(text@) == Some((clean@, string_views(paths@))),
            None => split_attachments(text@) is None,
        },
{
    let pattern = "\\+([\\w./-]+\\.\\w{1,10})";
    proof {
        assert(pattern@ == attachment_pattern());
    }
    let caps = match captures_in(pattern, text) {
        Some(c) => c,
        None => return None,
    };
    let paths = match first_groups_exec(&caps) {
        Some(p) => p,
        None => return None,
    };
    let rest = match replace_all_in(pattern, text, "") {
        Some(t) => t,
        None => return None,
    };
    proof {
        reveal_strlit("");
        assert(""@ =~= Seq::<char>::empty());
        assert(rest@ == regex_replace_all(attachment_pattern(), text@, Seq::empty()));
        assert(first_groups(regex_captures(attachment_pattern(), text@)) == Some(string_views(paths@)));
    }
    let clean = string_of(&trim_chars(&chars_of(rest.as_str())));
    Some((clean, paths))
}

} // verus!
