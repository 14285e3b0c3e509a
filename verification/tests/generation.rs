use asset_manifest::manifest::{can_generate, index_code};
use asset_manifest::record::record_code;
use asset_manifest::walk::is_walkable;
use asset_manifest::{codegen, process_directory, process_file, AssetDir, AssetEntry, AssetFile};

const TYPE_DECLARATION: &str = "#[derive(Debug)]
pub struct StaticFile {
    pub file_name: &'static str,
    pub name: &'static str,
    pub mime: &'static str,
}
";

const ACCESSORS: &str = "
#[allow(dead_code)]
impl StaticFile {
    /// Get a single `StaticFile` by name, if it exists.
    #[must_use]
    pub fn get(name: &str) -> Option<&'static Self> {
        if let Some(pos) = STATICS.iter().position(|&s| name == s.name) {
            Some(STATICS[pos])
        } else {
            None
        }
    }
}

impl std::fmt::Display for StaticFile {
    fn fmt(&self, f: &mut std::fmt::Formatter<'_>) -> std::fmt::Result {
        write!(f, \"{}\", self.name)
    }
}
";

fn file(name: &str, location: &str, content: &[u8]) -> AssetFile {
    AssetFile { name: name.to_string(), location: location.to_string(), content: content.to_vec() }
}

fn dir(name: &str, entries: Vec<AssetEntry>) -> AssetDir {
    AssetDir { name: name.to_string(), entries }
}

fn hash(content: &[u8]) -> String {
    format!("{:x}", md5::compute(content))
}

#[test]
fn test_directory_structure() {
    let root_content = b"root file";
    let nested_content = b"nested file";

    let nested_dir = dir(
        "vendor",
        vec![AssetEntry::File(file("script.js", "/tmp/assets/vendor/script.js", nested_content))],
    );
    let asset_dir = dir(
        "assets",
        vec![
            AssetEntry::Dir(nested_dir),
            AssetEntry::File(file("root.css", "/tmp/assets/root.css", root_content)),
        ],
    );

    let generated = codegen(&[asset_dir], &[]);

    assert!(generated.contains("pub mod vendor {"));
    assert!(generated.contains("pub static root_css"));
    assert!(generated.contains("pub static script_js"));

    assert!(generated.contains("\"/static/root-"));
    assert!(generated.contains("\"/static/vendor/script-"));

    assert!(generated.contains("&root_css"));
    assert!(generated.contains("&vendor::script_js"));
}

#[test]
fn test_mime_type_detection() {
    let extensions = vec!["svg", "png", "jpg", "css", "js", "wasm", "webp", "unknown"];
    let mut files = Vec::new();

    for ext in extensions {
        files.push(file(
            &format!("asset.{}", ext),
            &format!("/tmp/asset.{}", ext),
            format!("content for {}", ext).as_bytes(),
        ));
    }

    let generated = codegen(&[], &files);

    assert!(generated.contains("mime: \"image/svg+xml\""));
    assert!(generated.contains("mime: \"image/png\""));
    assert!(generated.contains("mime: \"image/jpeg\""));
    assert!(generated.contains("mime: \"text/css\""));
    assert!(generated.contains("mime: \"application/javascript\""));
    assert!(generated.contains("mime: \"application/wasm\""));
    assert!(generated.contains("mime: \"image/webp\""));
    assert!(generated.contains("mime: \"application/octet-stream\""));
}

#[test]
fn test_display_implementation() {
    let test_content = b"test content for display";
    let generated = codegen(&[], &[file("display.txt", "/tmp/display.txt", test_content)]);

    assert!(generated.contains("impl std::fmt::Display for StaticFile"));
    assert!(generated
        .contains("fn fmt(&self, f: &mut std::fmt::Formatter<'_>) -> std::fmt::Result"));
}

#[test]
fn test_get_method() {
    let test_content = b"test content for get method";
    let generated = codegen(&[], &[file("get.png", "/tmp/get.png", test_content)]);

    assert!(generated.contains("pub fn get(name: &str) -> Option<&'static Self>"));
}

#[test]
fn one_extra_file_is_declared_with_location_and_hash() {
    let test_content = b"test content";
    let generated = codegen(&[], &[file("basic.js", "/tmp/basic.js", test_content)]);

    assert!(generated.contains("pub struct StaticFile"));
    assert!(generated.contains("file_name: \"/tmp/basic.js\""));
    assert!(generated.contains("static STATICS: &[&StaticFile]"));
    assert!(generated.contains(&hash(test_content)));
}

#[test]
fn record_text_is_exact() {
    let code = record_code("    ", "/abs/a.png", "a_png", "/static/a-h.png", "image/png");
    let expected = "
    /// From \"/abs/a.png\"
    #[allow(non_upper_case_globals)]
    pub static a_png: StaticFile = StaticFile {
        file_name: \"/abs/a.png\",
        name: \"/static/a-h.png\",
        mime: \"image/png\",
    };
";
    assert_eq!(code, expected);
}

#[test]
fn process_file_appends_record_and_reference() {
    let mut output = String::from("before");
    let mut static_files = vec!["&earlier".to_string()];
    let logo = file("my-logo.min.svg", "/srv/img/my-logo.min.svg", b"abc");

    process_file(&logo, "img/icons", &mut output, &mut static_files, 2);

    let expected = "before
        /// From \"/srv/img/my-logo.min.svg\"
        #[allow(non_upper_case_globals)]
        pub static my_logo_min_svg: StaticFile = StaticFile {
            file_name: \"/srv/img/my-logo.min.svg\",
            name: \"/static/img/icons/my-logo.min-900150983cd24fb0d6963f7d28e17f72.svg\",
            mime: \"image/svg+xml\",
        };
";
    assert_eq!(output, expected);
    assert_eq!(static_files, vec!["&earlier", "&img::icons::my_logo_min_svg"]);
}

#[test]
fn process_file_at_the_root_is_unqualified() {
    let mut output = String::new();
    let mut static_files = Vec::new();

    process_file(&file("root.css", "/a/root.css", b""), "", &mut output, &mut static_files, 0);

    let expected = "
/// From \"/a/root.css\"
#[allow(non_upper_case_globals)]
pub static root_css: StaticFile = StaticFile {
    file_name: \"/a/root.css\",
    name: \"/static/root-d41d8cd98f00b204e9800998ecf8427e.css\",
    mime: \"text/css\",
};
";
    assert_eq!(output, expected);
    assert_eq!(static_files, vec!["&root_css"]);
}

#[test]
fn public_path_has_the_same_hash_for_the_same_content() {
    let mut output = String::new();
    let mut static_files = Vec::new();
    process_file(&file("one.png", "/x/one.png", b"same"), "", &mut output, &mut static_files, 0);
    process_file(&file("two.css", "/y/two.css", b"same"), "z", &mut output, &mut static_files, 0);

    let digest = hash(b"same");
    assert!(output.contains(&format!("name: \"/static/one-{}.png\"", digest)));
    assert!(output.contains(&format!("name: \"/static/z/two-{}.css\"", digest)));
}

#[test]
fn directory_in_a_directory_named_root_is_qualified() {
    let mut output = String::new();
    let mut static_files = Vec::new();
    let tree = dir("assets", vec![AssetEntry::Dir(dir(
        "root",
        vec![AssetEntry::File(file("a.js", "/assets/root/a.js", b"a"))],
    ))]);

    process_directory(&tree, "", &mut output, &mut static_files, 0);

    assert!(output.contains("pub mod root {"));
    assert_eq!(static_files, vec!["&root::a_js"]);
}

#[test]
fn directory_walk_puts_files_before_subdirectories() {
    let tree = dir(
        "ignored",
        vec![
            AssetEntry::Dir(dir(
                "my-lib",
                vec![
                    AssetEntry::Dir(dir(
                        "v1.2",
                        vec![AssetEntry::File(file("deep.wasm", "/r/my-lib/v1.2/deep.wasm", b"d"))],
                    )),
                    AssetEntry::File(file("lib.js", "/r/my-lib/lib.js", b"l")),
                ],
            )),
            AssetEntry::File(file("first.css", "/r/first.css", b"f")),
            AssetEntry::Dir(dir("empty", vec![])),
            AssetEntry::File(file("second.png", "/r/second.png", b"s")),
        ],
    );
    let mut output = String::new();
    let mut static_files = Vec::new();

    assert!(is_walkable(&tree, "", 0));
    process_directory(&tree, "", &mut output, &mut static_files, 0);

    assert_eq!(
        static_files,
        vec![
            "&first_css",
            "&second_png",
            "&my_lib::lib_js",
            "&my_lib::v1_2::deep_wasm",
        ]
    );

    let expected = format!(
        "
/// From \"/r/first.css\"
#[allow(non_upper_case_globals)]
pub static first_css: StaticFile = StaticFile {{
    file_name: \"/r/first.css\",
    name: \"/static/first-{f}.css\",
    mime: \"text/css\",
}};

/// From \"/r/second.png\"
#[allow(non_upper_case_globals)]
pub static second_png: StaticFile = StaticFile {{
    file_name: \"/r/second.png\",
    name: \"/static/second-{s}.png\",
    mime: \"image/png\",
}};

pub mod my_lib {{
    use super::StaticFile;

    /// From \"/r/my-lib/lib.js\"
    #[allow(non_upper_case_globals)]
    pub static lib_js: StaticFile = StaticFile {{
        file_name: \"/r/my-lib/lib.js\",
        name: \"/static/my-lib/lib-{l}.js\",
        mime: \"application/javascript\",
    }};

    pub mod v1_2 {{
        use super::StaticFile;

        /// From \"/r/my-lib/v1.2/deep.wasm\"
        #[allow(non_upper_case_globals)]
        pub static deep_wasm: StaticFile = StaticFile {{
            file_name: \"/r/my-lib/v1.2/deep.wasm\",
            name: \"/static/my-lib/v1.2/deep-{d}.wasm\",
            mime: \"application/wasm\",
        }};
    }}
}}

pub mod empty {{
    use super::StaticFile;
}}
",
        f = hash(b"f"),
        s = hash(b"s"),
        l = hash(b"l"),
        d = hash(b"d"),
    );
    assert_eq!(output, expected);
}

#[test]
fn directory_below_the_root_opens_a_module() {
    let vendor = dir("vendor", vec![]);
    let mut output = String::from("x");
    let mut static_files = Vec::new();

    process_directory(&vendor, "lib/vendor", &mut output, &mut static_files, 1);

    assert_eq!(output, "x\n    pub mod vendor {\n        use super::StaticFile;\n    }\n");
    assert!(static_files.is_empty());
}

#[test]
fn index_text_is_exact() {
    assert_eq!(index_code(&vec![]), "\nstatic STATICS: &[&StaticFile] = &[\n];\n");
    assert_eq!(
        index_code(&vec!["&a".to_string()]),
        "\nstatic STATICS: &[&StaticFile] = &[\n    &a\n];\n"
    );
    assert_eq!(
        index_code(&vec!["&a".to_string(), "&b::c".to_string(), "&d".to_string()]),
        "\nstatic STATICS: &[&StaticFile] = &[\n    &a,\n    &b::c,\n    &d\n];\n"
    );
}

#[test]
fn manifest_of_nothing() {
    let generated = codegen(&[], &[]);
    let expected =
        format!("{}{}\nstatic STATICS: &[&StaticFile] = &[\n];\n", TYPE_DECLARATION, ACCESSORS);
    assert_eq!(generated, expected);
}

#[test]
fn manifest_of_a_root_file_and_a_nested_file() {
    let asset_dir = dir(
        "assets",
        vec![
            AssetEntry::File(file("root.css", "/assets/root.css", b"root file")),
            AssetEntry::Dir(dir(
                "vendor",
                vec![AssetEntry::File(file("script.js", "/assets/vendor/script.js", b"nested file"))],
            )),
        ],
    );

    let generated = codegen(&[asset_dir], &[]);

    let expected = format!(
        "{declaration}
/// From \"/assets/root.css\"
#[allow(non_upper_case_globals)]
pub static root_css: StaticFile = StaticFile {{
    file_name: \"/assets/root.css\",
    name: \"/static/root-{root}.css\",
    mime: \"text/css\",
}};

pub mod vendor {{
    use super::StaticFile;

    /// From \"/assets/vendor/script.js\"
    #[allow(non_upper_case_globals)]
    pub static script_js: StaticFile = StaticFile {{
        file_name: \"/assets/vendor/script.js\",
        name: \"/static/vendor/script-{nested}.js\",
        mime: \"application/javascript\",
    }};
}}
{accessors}
static STATICS: &[&StaticFile] = &[
    &root_css,
    &vendor::script_js
];
",
        declaration = TYPE_DECLARATION,
        root = hash(b"root file"),
        nested = hash(b"nested file"),
        accessors = ACCESSORS,
    );
    assert_eq!(generated, expected);
}

#[test]
fn extra_file_is_unqualified_beside_a_directory_of_its_name() {
    let asset_dir = dir(
        "assets",
        vec![AssetEntry::Dir(dir(
            "vendor",
            vec![AssetEntry::File(file("script.js", "/assets/vendor/script.js", b"one"))],
        ))],
    );
    let extra = file("script.js", "/elsewhere/vendor/script.js", b"two");

    let generated = codegen(&[asset_dir], &[extra]);

    assert!(generated.ends_with(
        "\nstatic STATICS: &[&StaticFile] = &[\n    &vendor::script_js,\n    &script_js\n];\n"
    ));
    assert!(generated.contains(&format!("    name: \"/static/script-{}.js\"", hash(b"two"))));
    assert!(generated
        .contains(&format!("        name: \"/static/vendor/script-{}.js\"", hash(b"one"))));
}

#[test]
fn index_lists_every_file_once_in_declaration_order() {
    let first = dir(
        "first",
        vec![
            AssetEntry::Dir(dir("sub", vec![AssetEntry::File(file("n.js", "/1/sub/n.js", b"n"))])),
            AssetEntry::File(file("a.css", "/1/a.css", b"a")),
        ],
    );
    let second = dir("second", vec![AssetEntry::File(file("b.css", "/2/b.css", b"b"))]);
    let extras =
        vec![file("x.png", "/e/x.png", b"x"), file("y-z.webp", "/e/y-z.webp", b"y")];

    let generated = codegen(&[first, second], &extras);

    assert!(generated.ends_with(
        "\nstatic STATICS: &[&StaticFile] = &[\n    &a_css,\n    &sub::n_js,\n    &b_css,\n    &x_png,\n    &y_z_webp\n];\n"
    ));
    assert_eq!(generated.matches("pub static ").count(), 5);
    let declared: Vec<usize> = ["a_css", "n_js", "b_css", "x_png", "y_z_webp"]
        .iter()
        .map(|name| generated.find(&format!("pub static {}:", name)).unwrap())
        .collect();
    assert!(declared.windows(2).all(|pair| pair[0] < pair[1]));
}

#[test]
fn top_level_files_come_first_where_nested_files_come_last() {
    let flat = dir("flat", vec![AssetEntry::File(file("a.css", "/1/a.css", b"a"))]);
    let deep = dir(
        "deep",
        vec![
            AssetEntry::Dir(dir("sub", vec![AssetEntry::File(file("n.js", "/2/sub/n.js", b"n"))])),
            AssetEntry::File(file("b.css", "/2/b.css", b"b")),
        ],
    );

    let generated = codegen(&[flat, deep], &[]);

    assert!(generated.ends_with(
        "\nstatic STATICS: &[&StaticFile] = &[\n    &a_css,\n    &b_css,\n    &sub::n_js\n];\n"
    ));
}

#[test]
fn generation_is_repeatable() {
    let tree = || {
        dir(
            "assets",
            vec![
                AssetEntry::File(file("root.css", "/assets/root.css", b"root file")),
                AssetEntry::Dir(dir(
                    "vendor",
                    vec![AssetEntry::File(file("s.js", "/assets/vendor/s.js", b"nested file"))],
                )),
            ],
        )
    };
    let extras = || vec![file("e.wasm", "/e.wasm", b"\x00asm")];

    let once = codegen(&[tree()], &extras());
    let twice = codegen(&[tree()], &extras());

    assert_eq!(once, twice);
    assert_eq!(once.as_bytes(), twice.as_bytes());
}

#[test]
fn input_with_a_file_without_extension_is_not_accepted() {
    assert!(can_generate(&[], &[]));
    assert!(can_generate(&[dir("d", vec![])], &[file("a.b", "/a.b", b"")]));
    assert!(!can_generate(&[], &[file("Makefile", "/Makefile", b"")]));
    assert!(!can_generate(&[], &[file(".hidden", "/.hidden", b"")]));
    let nested = dir(
        "d",
        vec![AssetEntry::Dir(dir("e", vec![AssetEntry::File(file("LICENSE", "/d/e/LICENSE", b""))]))],
    );
    assert!(!can_generate(&[nested], &[]));
}

#[test]
fn directory_at_the_last_nesting_level_is_not_walkable() {
    let leaf = dir("leaf", vec![]);
    assert!(is_walkable(&leaf, "", usize::MAX));
    assert!(!is_walkable(&leaf, "leaf", usize::MAX));
    assert!(is_walkable(&leaf, "leaf", usize::MAX - 1));
    let parent = dir("parent", vec![AssetEntry::Dir(dir("leaf", vec![]))]);
    assert!(!is_walkable(&parent, "", usize::MAX));
    assert!(!is_walkable(&parent, "parent", usize::MAX - 1));
    assert!(is_walkable(&parent, "parent", usize::MAX - 2));
}
