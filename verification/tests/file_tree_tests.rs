use berry_editor::file_tree::{children_arrived, node_click, read_error_content, NodeAction, NodeState};
use berry_editor::file_tree::{
    codicon, desktop_indent, extension_of, file_content_url, file_icon, get_mock_file_tree, item_padding,
    load_error_content, placeholder_content, session_id_from_path, tree_line_left, tree_url, FileNode,
};

#[test]
fn test_file_node_creation() {
    let node = FileNode { name: "main.rs".to_string(), path: "/src/main.rs".to_string(), is_dir: false, children: None };
    assert_eq!(node.name, "main.rs");
    assert_eq!(node.path, "/src/main.rs");
    assert!(!node.is_dir);
    assert!(node.children.is_none());
}

#[test]
fn test_directory_node_creation() {
    let children = vec![
        FileNode { name: "main.rs".to_string(), path: "/src/main.rs".to_string(), is_dir: false, children: None },
        FileNode { name: "lib.rs".to_string(), path: "/src/lib.rs".to_string(), is_dir: false, children: None },
    ];
    let dir_node = FileNode { name: "src".to_string(), path: "/src".to_string(), is_dir: true, children: Some(children) };
    assert_eq!(dir_node.name, "src");
    assert!(dir_node.is_dir);
    assert_eq!(dir_node.children.as_ref().unwrap().len(), 2);
}

#[test]
fn test_get_mock_file_tree_contains_files() {
    let tree = get_mock_file_tree();
    assert_eq!(tree.len(), 4, "Should have 4 root items");
    assert_eq!(tree[0].name, "src");
    assert!(tree[0].is_dir);
    assert!(tree[0].children.is_some());
    assert_eq!(tree[1].name, "Cargo.toml");
    assert!(!tree[1].is_dir);
    assert_eq!(tree[2].name, "index.html");
    assert!(!tree[2].is_dir);
    assert_eq!(tree[3].name, "README.md");
    assert!(!tree[3].is_dir);
    let src_children = tree[0].children.as_ref().unwrap();
    assert!(src_children.len() >= 7, "src should have at least 7 children");
}

#[test]
fn test_file_extensions() {
    assert_eq!(extension_of("main.rs"), "rs");
    assert_eq!(extension_of("index.js"), "js");
    assert_eq!(extension_of("index.html"), "html");
    assert_eq!(extension_of("archive.tar.gz"), "gz");
    assert_eq!(extension_of("Makefile"), "Makefile");
    assert_eq!(extension_of("trailing."), "");
}

#[test]
fn icons_by_extension() {
    assert_eq!(file_icon(false, false, "/main.rs"), "\u{1F980}");
    assert_eq!(file_icon(false, false, "/a.ts"), "\u{1F4DC}");
    assert_eq!(file_icon(false, false, "/a.txt"), "\u{1F4C4}");
    assert_eq!(file_icon(true, true, "/src"), "\u{1F4C2}");
    assert_eq!(file_icon(true, false, "/src"), "\u{1F4C1}");
    assert_eq!(codicon(false, false, "Cargo.toml"), ("settings-gear", "#C5C5C5"));
    assert_eq!(codicon(false, false, "main.rs.disabled"), ("exclude", "#C5C5C5"));
    assert_eq!(codicon(false, false, "run.sh"), ("terminal-bash", "#89E051"));
    assert_eq!(codicon(true, true, "src"), ("folder-opened", "#DCAA6F"));
    assert_eq!(codicon(false, false, "x.unknown"), ("file", "#C5C5C5"));
}

#[test]
fn session_ids_from_paths() {
    assert_eq!(session_id_from_path("/chat/abc123"), Some("abc123".to_string()));
    assert_eq!(session_id_from_path("/chat/abc/files"), Some("abc".to_string()));
    assert_eq!(session_id_from_path("/chat"), None);
    assert_eq!(session_id_from_path("/other/abc"), None);
    assert_eq!(session_id_from_path("/chat/"), Some(String::new()));
}

#[test]
fn request_urls() {
    assert_eq!(tree_url("s1"), "/api/files/tree?session_id=s1");
    assert_eq!(file_content_url("s1", "src/a b.rs"), "/api/files/read?session_id=s1&path=src%2Fa%20b.rs");
    assert_eq!(file_content_url("s", "\u{fc}~_-."), "/api/files/read?session_id=s&path=%C3%BC~_-.");
}

#[test]
fn placeholder_and_error_texts() {
    assert_eq!(
        placeholder_content("/a.rs", "a.rs"),
        "// /a.rs\n// This is a placeholder for file content\n\nfn main() {\n    println!(\"File: a.rs\");\n}"
    );
    assert_eq!(load_error_content("/a.rs", "404"), "// Error loading file: /a.rs\n// 404");
    assert_eq!(item_padding(2), 32);
    assert_eq!(tree_line_left(1), 12);
    assert_eq!(desktop_indent(1), 24);
}

#[test]
fn node_clicks() {
    let closed = NodeState { expanded: false, loading: false };
    let (a, st) = node_click(closed, true, false);
    assert_eq!(a, NodeAction::LoadChildren);
    assert_eq!(st, NodeState { expanded: false, loading: true });
    assert_eq!(children_arrived(st, true), NodeState { expanded: true, loading: false });
    assert_eq!(children_arrived(st, false), NodeState { expanded: false, loading: false });
    assert_eq!(node_click(closed, true, true), (NodeAction::Expand, NodeState { expanded: true, loading: false }));
    let open = NodeState { expanded: true, loading: false };
    assert_eq!(node_click(open, true, true), (NodeAction::Collapse, closed));
    assert_eq!(node_click(closed, false, false), (NodeAction::OpenFile, closed));
    assert_eq!(read_error_content("a.rs", "denied"), "// Error loading file: a.rs\n// denied");
}
