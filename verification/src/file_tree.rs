//! The file tree: its nodes, the sample tree shown without a session, the
//! icon of each node, its indentation, and the requests it makes for a
//! session's files.

use crate::text::{append, chars_of, chars_eq, ends_with, ends_with_chars, spec_split, split_on, str_eq, string_from_chars};
use vstd::prelude::*;
use vstd::utf8::encode_utf8;

verus! {

/// A file or directory of the tree, with its children when it is a
/// directory whose entries were read.
#[derive(Debug)]
pub struct FileNode {
    pub name: String,
    pub path: String,
    pub is_dir: bool,
    pub children: Option<Vec<FileNode>>,
}

fn file_node(name: &str, path: &str) -> (r: FileNode)
    ensures
        r.name@ == name@,
        r.path@ == path@,
        !r.is_dir,
        r.children is None,
{
    FileNode { name: name.to_string(), path: path.to_string(), is_dir: false, children: None }
}

fn dir_node(name: &str, path: &str, children: Vec<FileNode>) -> (r: FileNode)
    ensures
        r.name@ == name@,
        r.path@ == path@,
        r.is_dir,
        r.children matches Some(c) && c@ == children@,
{
    FileNode { name: name.to_string(), path: path.to_string(), is_dir: true, children: Some(children) }
}

/// The sample tree shown when no session is open: `src` (with its
/// sources and a `debugger` directory), `Cargo.toml`, `index.html` and
/// `README.md`.
pub fn get_mock_file_tree() -> (r: Vec<FileNode>)
    ensures
        r@.len() == 4,
        r@[0].name@ == "src"@ && r@[0].is_dir && (r@[0].children matches Some(c) && c@.len() == 8),
        r@[1].name@ == "Cargo.toml"@ && !r@[1].is_dir,
        r@[2].name@ == "index.html"@ && !r@[2].is_dir,
        r@[3].name@ == "README.md"@ && !r@[3].is_dir,
{
    let debugger = dir_node(
        "debugger",
        "/src/debugger",
        vec![file_node("mod.rs", "/src/debugger/mod.rs"), file_node("session.rs", "/src/debugger/session.rs")],
    );
    let src = dir_node(
        "src",
        "/src",
        vec![
            file_node("lib.rs", "/src/lib.rs"),
            file_node("components.rs", "/src/components.rs"),
            file_node("editor.rs", "/src/editor.rs"),
            file_node("file_tree.rs", "/src/file_tree.rs"),
            file_node("buffer.rs", "/src/buffer.rs"),
            file_node("syntax.rs", "/src/syntax.rs"),
            file_node("lsp.rs", "/src/lsp.rs"),
            debugger,
        ],
    );
    vec![
        src,
        file_node("Cargo.toml", "/Cargo.toml"),
        file_node("index.html", "/index.html"),
        file_node("README.md", "/README.md"),
    ]
}

/// The part of a name after its last `.`; the whole name when it has none
/// (as `split('.').last()` gives it).
pub open spec fn extension(name: Seq<char>) -> Seq<char>
    decreases name.len(),
{
    if name.len() == 0 {
        name
    } else if name.last() == '.' {
        Seq::empty()
    } else {
        extension(name.drop_last()).push(name.last())
    }
}

/// The part of `name` after its last `.`, or all of it.
pub fn extension_of(name: &str) -> (r: String)
    ensures
        r@ == extension(name@),
{
    let cs = chars_of(name);
    let mut start: usize = 0;
    let mut i: usize = 0;
    while i < cs.len()
        invariant
            i <= cs@.len(),
            start <= i,
            cs@ == name@,
            extension(cs@.take(i as int)) == cs@.subrange(start as int, i as int),
        decreases cs@.len() - i,
    {
        assert(cs@.take(i + 1).drop_last() =~= cs@.take(i as int));
        if cs[i] == '.' {
            start = i + 1;
            assert(cs@.subrange(start as int, i + 1) =~= Seq::<char>::empty());
        } else {
            assert(cs@.subrange(start as int, i + 1) =~= cs@.subrange(start as int, i as int).push(cs@[i as int]));
        }
        i += 1;
    }
    assert(cs@.take(cs@.len() as int) =~= cs@);
    let mut out: Vec<char> = Vec::new();
    let mut k: usize = start;
    while k < cs.len()
        invariant
            start <= k <= cs@.len(),
            out@ == cs@.subrange(start as int, k as int),
        decreases cs@.len() - k,
    {
        out.push(cs[k]);
        k += 1;
        assert(out@ =~= cs@.subrange(start as int, k as int));
    }
    string_from_chars(out.as_slice())
}

/// The icon of a node in the tree: an open or closed folder for a
/// directory; for a file, one by the extension of its path.
pub open spec fn icon_of(is_dir: bool, expanded: bool, path: Seq<char>) -> Seq<char> {
    let e = extension(path);
    if is_dir {
        if expanded { "\u{1F4C2}"@ } else { "\u{1F4C1}"@ }
    } else if e == "rs"@ {
        "\u{1F980}"@
    } else if e == "js"@ || e == "ts"@ {
        "\u{1F4DC}"@
    } else if e == "html"@ {
        "\u{1F310}"@
    } else if e == "css"@ {
        "\u{1F3A8}"@
    } else if e == "md"@ {
        "\u{1F4DD}"@
    } else {
        "\u{1F4C4}"@
    }
}

/// The icon shown before a node.
pub fn file_icon(is_dir: bool, expanded: bool, path: &str) -> (r: &'static str)
    ensures
        r@ == icon_of(is_dir, expanded, path@),
{
    if is_dir {
        return if expanded { "\u{1F4C2}" } else { "\u{1F4C1}" };
    }
    let e = extension_of(path);
    let es = e.as_str();
    if str_eq(es, "rs") {
        "\u{1F980}"
    } else if str_eq(es, "js") || str_eq(es, "ts") {
        "\u{1F4DC}"
    } else if str_eq(es, "html") {
        "\u{1F310}"
    } else if str_eq(es, "css") {
        "\u{1F3A8}"
    } else if str_eq(es, "md") {
        "\u{1F4DD}"
    } else {
        "\u{1F4C4}"
    }
}

/// The codicon and color of a node in the desktop tree: an open or closed
/// folder for a directory; for a file, `exclude` when its name ends in
/// `.disabled`, else one by its extension.
pub open spec fn codicon_of(is_dir: bool, expanded: bool, name: Seq<char>) -> (Seq<char>, Seq<char>) {
    let e = extension(name);
    if is_dir {
        if expanded { ("folder-opened"@, "#DCAA6F"@) } else { ("folder"@, "#C5C5C5"@) }
    } else if ends_with(name, ".disabled"@) {
        ("exclude"@, "#C5C5C5"@)
    } else if e == "rs"@ {
        ("file"@, "#C5C5C5"@)
    } else if e == "toml"@ {
        ("settings-gear"@, "#C5C5C5"@)
    } else if e == "md"@ {
        ("markdown"@, "#519ABA"@)
    } else if e == "js"@ {
        ("symbol-misc"@, "#F1DD3F"@)
    } else if e == "ts"@ || e == "tsx"@ {
        ("symbol-misc"@, "#3B8AD8"@)
    } else if e == "jsx"@ {
        ("symbol-misc"@, "#61DAFB"@)
    } else if e == "html"@ {
        ("file-code"@, "#E37933"@)
    } else if e == "css"@ || e == "scss"@ || e == "sass"@ {
        ("symbol-misc"@, "#519ABA"@)
    } else if e == "json"@ {
        ("json"@, "#FBC02D"@)
    } else if e == "yaml"@ || e == "yml"@ {
        ("gear"@, "#CB4335"@)
    } else if e == "xml"@ {
        ("file-code"@, "#E37933"@)
    } else if e == "py"@ {
        ("symbol-misc"@, "#3776AB"@)
    } else if e == "java"@ {
        ("symbol-misc"@, "#EA2D2E"@)
    } else if e == "go"@ {
        ("symbol-misc"@, "#00ADD8"@)
    } else if e == "sh"@ || e == "bash"@ {
        ("terminal-bash"@, "#89E051"@)
    } else if e == "lock"@ {
        ("lock"@, "#C5C5C5"@)
    } else {
        ("file"@, "#C5C5C5"@)
    }
}

/// The codicon and color shown before a node of the desktop tree.
pub fn codicon(is_dir: bool, expanded: bool, name: &str) -> (r: (&'static str, &'static str))
    ensures
        (r.0@, r.1@) == codicon_of(is_dir, expanded, name@),
{
    if is_dir {
        return if expanded { ("folder-opened", "#DCAA6F") } else { ("folder", "#C5C5C5") };
    }
    let cs = chars_of(name);
    let suffix = chars_of(".disabled");
    if ends_with_chars(cs.as_slice(), suffix.as_slice()) {
        return ("exclude", "#C5C5C5");
    }
    let e = extension_of(name);
    let es = e.as_str();
    if str_eq(es, "rs") {
        ("file", "#C5C5C5")
    } else if str_eq(es, "toml") {
        ("settings-gear", "#C5C5C5")
    } else if str_eq(es, "md") {
        ("markdown", "#519ABA")
    } else if str_eq(es, "js") {
        ("symbol-misc", "#F1DD3F")
    } else if str_eq(es, "ts") || str_eq(es, "tsx") {
        ("symbol-misc", "#3B8AD8")
    } else if str_eq(es, "jsx") {
        ("symbol-misc", "#61DAFB")
    } else if str_eq(es, "html") {
        ("file-code", "#E37933")
    } else if str_eq(es, "css") || str_eq(es, "scss") || str_eq(es, "sass") {
        ("symbol-misc", "#519ABA")
    } else if str_eq(es, "json") {
        ("json", "#FBC02D")
    } else if str_eq(es, "yaml") || str_eq(es, "yml") {
        ("gear", "#CB4335")
    } else if str_eq(es, "xml") {
        ("file-code", "#E37933")
    } else if str_eq(es, "py") {
        ("symbol-misc", "#3776AB")
    } else if str_eq(es, "java") {
        ("symbol-misc", "#EA2D2E")
    } else if str_eq(es, "go") {
        ("symbol-misc", "#00ADD8")
    } else if str_eq(es, "sh") || str_eq(es, "bash") {
        ("terminal-bash", "#89E051")
    } else if str_eq(es, "lock") {
        ("lock", "#C5C5C5")
    } else {
        ("file", "#C5C5C5")
    }
}

/// The left padding, in pixels, of a node at nesting level `level` of the
/// browser tree.
pub fn item_padding(level: usize) -> (r: usize)
    requires
        8 + level * 12 <= usize::MAX,
    ensures
        r == 8 + level * 12,
{
    8 + level * 12
}

/// Where the guide line of nesting level `l` (from 1) stands, in pixels.
pub fn tree_line_left(l: usize) -> (r: usize)
    requires
        1 <= l,
        8 + (l - 1) * 12 + 4 <= usize::MAX,
    ensures
        r == 8 + (l - 1) * 12 + 4,
{
    8 + (l - 1) * 12 + 4
}

/// The left padding, in pixels, of a node at nesting level `level` of the
/// desktop tree.
pub fn desktop_indent(level: usize) -> (r: usize)
    requires
        level * 16 + 8 <= usize::MAX,
    ensures
        r == level * 16 + 8,
{
    level * 16 + 8
}

/// What a click on a node of the desktop tree sets off.
#[derive(Debug, Clone, Copy, PartialEq, Eq, Structural)]
pub enum NodeAction {
    /// Read the directory's entries; it opens when they arrive.
    LoadChildren,
    /// Open the directory, whose entries were read before.
    Expand,
    /// Close the open directory.
    Collapse,
    /// Read the file and show it.
    OpenFile,
}

/// The state of a node of the desktop tree: whether it is open, and
/// whether its entries are being read.
#[derive(Debug, Clone, Copy, PartialEq, Eq, Structural)]
pub struct NodeState {
    pub expanded: bool,
    pub loading: bool,
}

/// What a click on a node does: a file is opened; a closed directory is
/// opened, after its entries are read if they were not yet; an open one is
/// closed.
pub open spec fn node_action(is_dir: bool, expanded: bool, loaded: bool) -> NodeAction {
    if !is_dir {
        NodeAction::OpenFile
    } else if expanded {
        NodeAction::Collapse
    } else if loaded {
        NodeAction::Expand
    } else {
        NodeAction::LoadChildren
    }
}

/// The state right after a click that sets off `a`.
pub open spec fn clicked_state(st: NodeState, a: NodeAction) -> NodeState {
    match a {
        NodeAction::LoadChildren => NodeState { loading: true, ..st },
        NodeAction::Expand => NodeState { expanded: true, ..st },
        NodeAction::Collapse => NodeState { expanded: false, ..st },
        NodeAction::OpenFile => st,
    }
}

/// A click on a node: what it sets off, and the node's state right after.
pub fn node_click(st: NodeState, is_dir: bool, loaded: bool) -> (r: (NodeAction, NodeState))
    ensures
        r.0 == node_action(is_dir, st.expanded, loaded),
        r.1 == clicked_state(st, r.0),
{
    let a = if !is_dir {
        NodeAction::OpenFile
    } else if st.expanded {
        NodeAction::Collapse
    } else if loaded {
        NodeAction::Expand
    } else {
        NodeAction::LoadChildren
    };
    let next = match a {
        NodeAction::LoadChildren => NodeState { expanded: st.expanded, loading: true },
        NodeAction::Expand => NodeState { expanded: true, loading: st.loading },
        NodeAction::Collapse => NodeState { expanded: false, loading: st.loading },
        NodeAction::OpenFile => st,
    };
    (a, next)
}

/// The state once a directory's entries have been read (`ok`) or the read
/// failed: no longer loading, and open only if they were read.
pub fn children_arrived(st: NodeState, ok: bool) -> (r: NodeState)
    ensures
        !r.loading,
        r.expanded == (ok || st.expanded),
{
    NodeState { expanded: ok || st.expanded, loading: false }
}

/// What the editor shows for a file that could not be read.
pub fn read_error_content(path: &str, error: &str) -> (r: String)
    ensures
        r@ == "// Error loading file: "@ + path@ + "\n// "@ + error@,
{
    let s = append(String::from_str("// Error loading file: "), path);
    let s = append(s, "\n// ");
    append(s, error)
}

/// The session id of a page path of the form `/chat/{id}...`: the third
/// piece of the path split at `/`, when the second is `chat`.
pub open spec fn session_of_path(pathname: Seq<char>) -> Option<Seq<char>> {
    let parts = spec_split(pathname, '/');
    if parts.len() >= 3 && parts[1] == "chat"@ {
        Some(parts[2])
    } else {
        None
    }
}

/// The session id in a page path `/chat/{id}`, if it is one.
pub fn session_id_from_path(pathname: &str) -> (r: Option<String>)
    ensures
        match session_of_path(pathname@) {
            Some(id) => r matches Some(s) && s@ == id,
            None => r is None,
        },
{
    let cs = chars_of(pathname);
    let parts = split_on(cs.as_slice(), '/');
    let chat = chars_of("chat");
    if parts.len() >= 3 && chars_eq(parts[1].as_slice(), chat.as_slice()) {
        Some(string_from_chars(parts[2].as_slice()))
    } else {
        None
    }
}

/// Whether a byte stays as it is in a URL: an ASCII letter or digit, or
/// one of `-`, `.`, `_`, `~`.
pub open spec fn url_safe_byte(b: u8) -> bool {
    (48 <= b <= 57) || (65 <= b <= 90) || (97 <= b <= 122) || b == 45 || b == 46 || b == 95 || b == 126
}

/// The uppercase hexadecimal digit of `d` (below 16).
pub open spec fn hex_digit(d: u8) -> char {
    if d < 10 {
        (48 + d) as char
    } else {
        (55 + d) as char
    }
}

/// Bytes percent-encoded: each safe byte as its character, every other as
/// `%` and its two uppercase hexadecimal digits.
pub open spec fn percent_encoded(bytes: Seq<u8>) -> Seq<char>
    decreases bytes.len(),
{
    if bytes.len() == 0 {
        Seq::empty()
    } else {
        let b = bytes.last();
        percent_encoded(bytes.drop_last()) + if url_safe_byte(b) {
            seq![b as char]
        } else {
            seq!['%', hex_digit(b / 16), hex_digit(b % 16)]
        }
    }
}

/// `urlencoding::encode`: percent-encodes every byte of the UTF-8 form of
/// `s` but ASCII letters, digits and `-`, `.`, `_`, `~`, with uppercase
/// hexadecimal digits.
#[verifier::external_body]
fn url_encode(s: &str) -> (r: String)
    ensures
        r@ == percent_encoded(encode_utf8(s@)),
{
    urlencoding::encode(s).into_owned()
}

/// The request for a session's file tree.
pub fn tree_url(session_id: &str) -> (r: String)
    ensures
        r@ == "/api/files/tree?session_id="@ + session_id@,
{
    append("/api/files/tree?session_id=".to_string(), session_id)
}

/// The request for a file of a session, its path percent-encoded.
pub fn file_content_url(session_id: &str, file_path: &str) -> (r: String)
    ensures
        r@ == "/api/files/read?session_id="@ + session_id@ + "&path="@ + percent_encoded(encode_utf8(file_path@)),
{
    let encoded = url_encode(file_path);
    append(append(append("/api/files/read?session_id=".to_string(), session_id), "&path="), encoded.as_str())
}

/// The text shown for a file when no session is open.
pub fn placeholder_content(path: &str, name: &str) -> (r: String)
    ensures
        r@ == "// "@ + path@ + "\n// This is a placeholder for file content\n\nfn main() {\n    println!(\"File: "@ + name@
            + "\");\n}"@,
{
    let a = append("// ".to_string(), path);
    let b = append(a, "\n// This is a placeholder for file content\n\nfn main() {\n    println!(\"File: ");
    let c = append(b, name);
    append(c, "\");\n}")
}

/// The text shown for a file that could not be read.
pub fn load_error_content(path: &str, error: &str) -> (r: String)
    ensures
        r@ == "// Error loading file: "@ + path@ + "\n// "@ + error@,
{
    append(append(append("// Error loading file: ".to_string(), path), "\n// "), error)
}

} // verus!
