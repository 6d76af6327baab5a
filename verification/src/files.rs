//! The file viewer's and the folder tree's rules: file kinds and
//! categories by extension, icons by name, sizes and modification times
//! as shown, and the git state of files and folders.
use vstd::prelude::*;

use crate::text::{
    append_chars, append_str, chars_eq, chars_of, eq_str, has_prefix, lines_of, push_decimal, decimal_digits,
    seqs_of, push_seq, slice_chars, split_lines, starts_with_chars, string_of, to_ascii_lower,
    ascii_lower_of, trim, trim_of,
};

verus! {

broadcast use vstd::string::group_string_axioms;

// ─── Kinds and categories ────────────────────────────────────────────

#[derive(Clone, Copy, Debug, PartialEq, Eq, Structural)]
pub enum FileKind {
    Image,
    Pdf,
    Docx,
    Code,
    Office,
}

#[derive(Clone, Copy, Debug, PartialEq, Eq, Structural)]
pub enum FileCategory {
    All,
    Rust,
    Dart,
    Python,
    JsTs,
    Java,
    Go,
    Cpp,
    Swift,
    Web,
    Shell,
    Config,
    Docs,
    Images,
    Other,
}

/// The word a kind is shown by.
pub open spec fn kind_label_of(kind: FileKind) -> Seq<char> {
    match kind {
        FileKind::Image => "image"@,
        FileKind::Pdf => "pdf"@,
        FileKind::Docx => "docx"@,
        FileKind::Code => "code"@,
        FileKind::Office => "document"@,
    }
}

/// The word a kind is shown by.
pub fn kind_label(kind: FileKind) -> (s: &'static str)
    ensures
        s@ == kind_label_of(kind),
{
    match kind {
        FileKind::Image => "image",
        FileKind::Pdf => "pdf",
        FileKind::Docx => "docx",
        FileKind::Code => "code",
        FileKind::Office => "document",
    }
}

/// The icon a file of a kind is listed with in the file viewer.
pub open spec fn kind_icon_of(kind: FileKind) -> Seq<char> {
    match kind {
        FileKind::Image => "image-x-generic-symbolic"@,
        FileKind::Pdf => "application-pdf-symbolic"@,
        FileKind::Docx => "x-office-document-symbolic"@,
        FileKind::Code => "text-x-script-symbolic"@,
        FileKind::Office => "x-office-document-symbolic"@,
    }
}

/// The icon a file of a kind is listed with in the file viewer.
pub fn kind_icon(kind: FileKind) -> (s: &'static str)
    ensures
        s@ == kind_icon_of(kind),
{
    match kind {
        FileKind::Image => "image-x-generic-symbolic",
        FileKind::Pdf => "application-pdf-symbolic",
        FileKind::Docx => "x-office-document-symbolic",
        FileKind::Code => "text-x-script-symbolic",
        FileKind::Office => "x-office-document-symbolic",
    }
}

/// The word a category is shown by.
pub open spec fn category_label_of(cat: FileCategory) -> Seq<char> {
    match cat {
        FileCategory::All => "all"@,
        FileCategory::Rust => "rust"@,
        FileCategory::Dart => "dart"@,
        FileCategory::Python => "python"@,
        FileCategory::JsTs => "js/ts"@,
        FileCategory::Java => "java"@,
        FileCategory::Go => "go"@,
        FileCategory::Cpp => "c/c++"@,
        FileCategory::Swift => "swift"@,
        FileCategory::Web => "web"@,
        FileCategory::Shell => "shell"@,
        FileCategory::Config => "config"@,
        FileCategory::Docs => "docs"@,
        FileCategory::Images => "images"@,
        FileCategory::Other => "other"@,
    }
}

/// The word a category is shown by.
pub fn category_label(cat: FileCategory) -> (s: &'static str)
    ensures
        s@ == category_label_of(cat),
{
    match cat {
        FileCategory::All => "all",
        FileCategory::Rust => "rust",
        FileCategory::Dart => "dart",
        FileCategory::Python => "python",
        FileCategory::JsTs => "js/ts",
        FileCategory::Java => "java",
        FileCategory::Go => "go",
        FileCategory::Cpp => "c/c++",
        FileCategory::Swift => "swift",
        FileCategory::Web => "web",
        FileCategory::Shell => "shell",
        FileCategory::Config => "config",
        FileCategory::Docs => "docs",
        FileCategory::Images => "images",
        FileCategory::Other => "other",
    }
}

/// The position of a category in the filter bar.
pub open spec fn category_order_of(cat: FileCategory) -> u8 {
    match cat {
        FileCategory::All => 0,
        FileCategory::Rust => 1,
        FileCategory::Dart => 2,
        FileCategory::Python => 3,
        FileCategory::JsTs => 4,
        FileCategory::Java => 5,
        FileCategory::Go => 6,
        FileCategory::Cpp => 7,
        FileCategory::Swift => 8,
        FileCategory::Web => 9,
        FileCategory::Shell => 10,
        FileCategory::Config => 11,
        FileCategory::Docs => 12,
        FileCategory::Images => 13,
        FileCategory::Other => 14,
    }
}

/// The position of a category in the filter bar.
pub fn category_order(cat: FileCategory) -> (n: u8)
    ensures
        n == category_order_of(cat),
{
    match cat {
        FileCategory::All => 0,
        FileCategory::Rust => 1,
        FileCategory::Dart => 2,
        FileCategory::Python => 3,
        FileCategory::JsTs => 4,
        FileCategory::Java => 5,
        FileCategory::Go => 6,
        FileCategory::Cpp => 7,
        FileCategory::Swift => 8,
        FileCategory::Web => 9,
        FileCategory::Shell => 10,
        FileCategory::Config => 11,
        FileCategory::Docs => 12,
        FileCategory::Images => 13,
        FileCategory::Other => 14,
    }
}

/// Categories are told apart by their position in the filter bar.
pub proof fn law_category_order_distinct(a: FileCategory, b: FileCategory)
    ensures
        category_order_of(a) == category_order_of(b) ==> a == b,
        category_order_of(a) <= 14,
{
}

// ─── Extensions ──────────────────────────────────────────────────────

/// The position of the last `.` in `s`, or -1.
pub open spec fn last_dot(s: Seq<char>) -> int
    decreases s.len(),
{
    if s.len() == 0 {
        -1
    } else if s.last() == '.' {
        s.len() - 1
    } else {
        last_dot(s.drop_last())
    }
}

/// `Path::extension` of a file name: the text after the last `.`; none
/// for `..`, for a name without a `.`, or for a name whose only `.` is
/// its first character.
pub open spec fn extension_of(name: Seq<char>) -> Option<Seq<char>> {
    let i = last_dot(name);
    if name == ".."@ || i <= 0 {
        None
    } else {
        Some(name.skip(i + 1))
    }
}

/// `rsplit('.').next()`: the text after the last `.`, or the whole name.
pub open spec fn after_last_dot(name: Seq<char>) -> Seq<char> {
    name.skip(last_dot(name) + 1)
}

proof fn lemma_last_dot_bounds(s: Seq<char>)
    ensures
        -1 <= last_dot(s) < s.len(),
        last_dot(s) >= 0 ==> s[last_dot(s)] == '.',
        forall|j: int| last_dot(s) < j < s.len() ==> s[j] != '.',
    decreases s.len(),
{
    if s.len() > 0 && s.last() != '.' {
        lemma_last_dot_bounds(s.drop_last());
        assert forall|j: int| last_dot(s) < j < s.len() implies s[j] != '.' by {
            if j < s.len() - 1 {
                assert(s[j] == s.drop_last()[j]);
            }
        }
    }
}

fn find_last_dot(s: &[char]) -> (r: Option<usize>)
    ensures
        match r {
            Some(i) => i < s.len() && i as int == last_dot(s@),
            None => last_dot(s@) == -1,
        },
{
    let mut j = s.len();
    assert(s@.take(j as int) =~= s@);
    while j > 0
        invariant
            j <= s.len(),
            last_dot(s@) == last_dot(s@.take(j as int)),
        decreases j,
    {
        assert(s@.take(j as int).drop_last() =~= s@.take(j - 1));
        if s[j - 1] == '.' {
            proof {
                lemma_last_dot_bounds(s@.take(j as int));
            }
            return Some(j - 1);
        }
        j -= 1;
    }
    None
}

/// The extension of a file name, as `Path::extension` reads it.
pub fn extension(name: &str) -> (r: Option<String>)
    ensures
        match r {
            Some(e) => extension_of(name@) == Some(e@),
            None => extension_of(name@) is None,
        },
{
    let chars = chars_of(name);
    if eq_str(&chars, "..") {
        return None;
    }
    match find_last_dot(&chars) {
        Some(i) => {
            if i == 0 {
                None
            } else {
                let e = slice_chars(&chars, i + 1, chars.len());
                assert(e@ =~= chars@.skip(i + 1));
                Some(string_of(&e))
            }
        },
        None => None,
    }
}

/// The category of a code file, by its lower-cased extension.
pub open spec fn category_of_ext(ext: Seq<char>) -> FileCategory {
    if ext == "rs"@ || ext == "rt"@ {
        FileCategory::Rust
    } else if ext == "dart"@ {
        FileCategory::Dart
    } else if ext == "py"@ || ext == "pyw"@ || ext == "r"@ {
        FileCategory::Python
    } else if ext == "js"@ || ext == "mjs"@ || ext == "cjs"@ || ext == "ts"@ || ext == "tsx"@ || ext == "jsx"@ {
        FileCategory::JsTs
    } else if ext == "java"@ || ext == "kt"@ || ext == "kts"@ || ext == "scala"@ || ext == "groovy"@ || ext == "gradle"@ {
        FileCategory::Java
    } else if ext == "go"@ {
        FileCategory::Go
    } else if ext == "c"@ || ext == "h"@ || ext == "cpp"@ || ext == "cc"@ || ext == "cxx"@ || ext == "hpp"@ || ext == "hh"@ || ext == "hxx"@ || ext == "cs"@ {
        FileCategory::Cpp
    } else if ext == "swift"@ {
        FileCategory::Swift
    } else if ext == "html"@ || ext == "htm"@ || ext == "css"@ || ext == "scss"@ || ext == "sass"@ || ext == "less"@ || ext == "xml"@ || ext == "vue"@ || ext == "svelte"@ || ext == "astro"@ {
        FileCategory::Web
    } else if ext == "sh"@ || ext == "bash"@ || ext == "zsh"@ || ext == "fish"@ || ext == "ps1"@ || ext == "psm1"@ || ext == "bat"@ || ext == "cmd"@ {
        FileCategory::Shell
    } else if ext == "json"@ || ext == "jsonc"@ || ext == "toml"@ || ext == "yaml"@ || ext == "yml"@ || ext == "ini"@ || ext == "cfg"@ || ext == "conf"@ || ext == "env"@ || ext == "nix"@ || ext == "sql"@ || ext == "tf"@ || ext == "hcl"@ || ext == "proto"@ || ext == "graphql"@ || ext == "gql"@ || ext == "prisma"@ || ext == "cmake"@ {
        FileCategory::Config
    } else if ext == "md"@ || ext == "txt"@ || ext == "log"@ || ext == "rst"@ {
        FileCategory::Docs
    } else {
        FileCategory::Other
    }
}

fn category_of_lower_ext(ext: &Vec<char>) -> (c: FileCategory)
    ensures
        c == category_of_ext(ext@),
{
    if eq_str(&ext, "rs") || eq_str(&ext, "rt") {
        FileCategory::Rust
    } else if eq_str(&ext, "dart") {
        FileCategory::Dart
    } else if eq_str(&ext, "py") || eq_str(&ext, "pyw") || eq_str(&ext, "r") {
        FileCategory::Python
    } else if eq_str(&ext, "js") || eq_str(&ext, "mjs") || eq_str(&ext, "cjs") || eq_str(&ext, "ts") || eq_str(&ext, "tsx") || eq_str(&ext, "jsx") {
        FileCategory::JsTs
    } else if eq_str(&ext, "java") || eq_str(&ext, "kt") || eq_str(&ext, "kts") || eq_str(&ext, "scala") || eq_str(&ext, "groovy") || eq_str(&ext, "gradle") {
        FileCategory::Java
    } else if eq_str(&ext, "go") {
        FileCategory::Go
    } else if eq_str(&ext, "c") || eq_str(&ext, "h") || eq_str(&ext, "cpp") || eq_str(&ext, "cc") || eq_str(&ext, "cxx") || eq_str(&ext, "hpp") || eq_str(&ext, "hh") || eq_str(&ext, "hxx") || eq_str(&ext, "cs") {
        FileCategory::Cpp
    } else if eq_str(&ext, "swift") {
        FileCategory::Swift
    } else if eq_str(&ext, "html") || eq_str(&ext, "htm") || eq_str(&ext, "css") || eq_str(&ext, "scss") || eq_str(&ext, "sass") || eq_str(&ext, "less") || eq_str(&ext, "xml") || eq_str(&ext, "vue") || eq_str(&ext, "svelte") || eq_str(&ext, "astro") {
        FileCategory::Web
    } else if eq_str(&ext, "sh") || eq_str(&ext, "bash") || eq_str(&ext, "zsh") || eq_str(&ext, "fish") || eq_str(&ext, "ps1") || eq_str(&ext, "psm1") || eq_str(&ext, "bat") || eq_str(&ext, "cmd") {
        FileCategory::Shell
    } else if eq_str(&ext, "json") || eq_str(&ext, "jsonc") || eq_str(&ext, "toml") || eq_str(&ext, "yaml") || eq_str(&ext, "yml") || eq_str(&ext, "ini") || eq_str(&ext, "cfg") || eq_str(&ext, "conf") || eq_str(&ext, "env") || eq_str(&ext, "nix") || eq_str(&ext, "sql") || eq_str(&ext, "tf") || eq_str(&ext, "hcl") || eq_str(&ext, "proto") || eq_str(&ext, "graphql") || eq_str(&ext, "gql") || eq_str(&ext, "prisma") || eq_str(&ext, "cmake") {
        FileCategory::Config
    } else if eq_str(&ext, "md") || eq_str(&ext, "txt") || eq_str(&ext, "log") || eq_str(&ext, "rst") {
        FileCategory::Docs
    } else {
        FileCategory::Other
    }
}

/// The kind of a file with a lower-cased extension that is not shown as
/// code.
pub open spec fn media_kind_of_ext(ext: Seq<char>) -> Option<FileKind> {
    if ext == "png"@ || ext == "jpg"@ || ext == "jpeg"@ || ext == "gif"@ || ext == "webp"@ || ext == "bmp"@ || ext == "svg"@ {
        Some(FileKind::Image)
    } else if ext == "pdf"@ {
        Some(FileKind::Pdf)
    } else if ext == "docx"@ {
        Some(FileKind::Docx)
    } else if ext == "doc"@ || ext == "ppt"@ || ext == "pptx"@ {
        Some(FileKind::Office)
    } else {
        None
    }
}

fn media_kind_of_lower_ext(ext: &Vec<char>) -> (k: Option<FileKind>)
    ensures
        k == media_kind_of_ext(ext@),
{
    if eq_str(&ext, "png") || eq_str(&ext, "jpg") || eq_str(&ext, "jpeg") || eq_str(&ext, "gif") || eq_str(&ext, "webp") || eq_str(&ext, "bmp") || eq_str(&ext, "svg") {
        Some(FileKind::Image)
    } else if eq_str(&ext, "pdf") {
        Some(FileKind::Pdf)
    } else if eq_str(&ext, "docx") {
        Some(FileKind::Docx)
    } else if eq_str(&ext, "doc") || eq_str(&ext, "ppt") || eq_str(&ext, "pptx") {
        Some(FileKind::Office)
    } else {
        None
    }
}

/// The icon and style class of a file known by its whole (lower-cased) name.
pub open spec fn name_icon_of(name: Seq<char>) -> Option<(Seq<char>, Seq<char>)> {
    if name == "cargo.toml"@ || name == "cargo.lock"@ {
        Some(("application-x-executable-symbolic"@, "ft-rust"@))
    } else if name == "package.json"@ || name == "package-lock.json"@ || name == "yarn.lock"@ || name == "pnpm-lock.yaml"@ {
        Some(("application-x-executable-symbolic"@, "ft-js"@))
    } else if name == "tsconfig.json"@ {
        Some(("application-x-executable-symbolic"@, "ft-ts"@))
    } else if name == "dockerfile"@ || name == "docker-compose.yml"@ || name == "docker-compose.yaml"@ {
        Some(("application-x-executable-symbolic"@, "ft-config"@))
    } else if name == ".gitignore"@ || name == ".gitmodules"@ || name == ".gitattributes"@ {
        Some(("emblem-shared-symbolic"@, "ft-git"@))
    } else if name == "makefile"@ || name == "cmakelists.txt"@ || name == "justfile"@ {
        Some(("application-x-executable-symbolic"@, "ft-build"@))
    } else if name == "readme.md"@ || name == "license"@ || name == "license.md"@ || name == "changelog.md"@ {
        Some(("accessories-text-editor-symbolic"@, "ft-doc"@))
    } else if name == ".env"@ || name == ".env.local"@ || name == ".env.example"@ {
        Some(("dialog-password-symbolic"@, "ft-secret"@))
    } else {
        None
    }
}

fn name_icon(name: &Vec<char>) -> (r: Option<(&'static str, &'static str)>)
    ensures
        match r {
            Some((a, b)) => name_icon_of(name@) == Some((a@, b@)),
            None => name_icon_of(name@) is None,
        },
{
    if eq_str(&name, "cargo.toml") || eq_str(&name, "cargo.lock") {
        Some(("application-x-executable-symbolic", "ft-rust"))
    } else if eq_str(&name, "package.json") || eq_str(&name, "package-lock.json") || eq_str(&name, "yarn.lock") || eq_str(&name, "pnpm-lock.yaml") {
        Some(("application-x-executable-symbolic", "ft-js"))
    } else if eq_str(&name, "tsconfig.json") {
        Some(("application-x-executable-symbolic", "ft-ts"))
    } else if eq_str(&name, "dockerfile") || eq_str(&name, "docker-compose.yml") || eq_str(&name, "docker-compose.yaml") {
        Some(("application-x-executable-symbolic", "ft-config"))
    } else if eq_str(&name, ".gitignore") || eq_str(&name, ".gitmodules") || eq_str(&name, ".gitattributes") {
        Some(("emblem-shared-symbolic", "ft-git"))
    } else if eq_str(&name, "makefile") || eq_str(&name, "cmakelists.txt") || eq_str(&name, "justfile") {
        Some(("application-x-executable-symbolic", "ft-build"))
    } else if eq_str(&name, "readme.md") || eq_str(&name, "license") || eq_str(&name, "license.md") || eq_str(&name, "changelog.md") {
        Some(("accessories-text-editor-symbolic", "ft-doc"))
    } else if eq_str(&name, ".env") || eq_str(&name, ".env.local") || eq_str(&name, ".env.example") {
        Some(("dialog-password-symbolic", "ft-secret"))
    } else {
        None
    }
}

/// The icon and style class of a file by its lower-cased extension.
pub open spec fn ext_icon_of(ext: Seq<char>) -> Option<(Seq<char>, Seq<char>)> {
    if ext == "rs"@ {
        Some(("text-x-generic-symbolic"@, "ft-rust"@))
    } else if ext == "js"@ || ext == "mjs"@ || ext == "cjs"@ || ext == "jsx"@ {
        Some(("text-x-generic-symbolic"@, "ft-js"@))
    } else if ext == "ts"@ || ext == "tsx"@ || ext == "mts"@ || ext == "cts"@ {
        Some(("text-x-generic-symbolic"@, "ft-ts"@))
    } else if ext == "html"@ || ext == "htm"@ || ext == "svelte"@ || ext == "vue"@ {
        Some(("text-html-symbolic"@, "ft-html"@))
    } else if ext == "css"@ || ext == "scss"@ || ext == "sass"@ || ext == "less"@ {
        Some(("text-x-generic-symbolic"@, "ft-css"@))
    } else if ext == "json"@ || ext == "jsonc"@ || ext == "json5"@ {
        Some(("text-x-generic-symbolic"@, "ft-json"@))
    } else if ext == "yaml"@ || ext == "yml"@ {
        Some(("text-x-generic-symbolic"@, "ft-config"@))
    } else if ext == "toml"@ || ext == "ini"@ || ext == "cfg"@ {
        Some(("text-x-generic-symbolic"@, "ft-config"@))
    } else if ext == "xml"@ || ext == "svg"@ {
        Some(("text-x-generic-symbolic"@, "ft-html"@))
    } else if ext == "md"@ || ext == "mdx"@ || ext == "txt"@ || ext == "rst"@ || ext == "adoc"@ {
        Some(("accessories-text-editor-symbolic"@, "ft-doc"@))
    } else if ext == "py"@ || ext == "pyi"@ || ext == "pyw"@ {
        Some(("text-x-generic-symbolic"@, "ft-python"@))
    } else if ext == "go"@ || ext == "mod"@ || ext == "sum"@ {
        Some(("text-x-generic-symbolic"@, "ft-go"@))
    } else if ext == "c"@ || ext == "h"@ {
        Some(("text-x-generic-symbolic"@, "ft-c"@))
    } else if ext == "cpp"@ || ext == "cxx"@ || ext == "cc"@ || ext == "hpp"@ || ext == "hxx"@ {
        Some(("text-x-generic-symbolic"@, "ft-c"@))
    } else if ext == "java"@ || ext == "kt"@ || ext == "kts"@ {
        Some(("text-x-generic-symbolic"@, "ft-java"@))
    } else if ext == "sh"@ || ext == "bash"@ || ext == "zsh"@ || ext == "fish"@ {
        Some(("utilities-terminal-symbolic"@, "ft-shell"@))
    } else if ext == "png"@ || ext == "jpg"@ || ext == "jpeg"@ || ext == "gif"@ || ext == "webp"@ || ext == "ico"@ || ext == "bmp"@ || ext == "tiff"@ {
        Some(("image-x-generic-symbolic"@, "ft-image"@))
    } else if ext == "zip"@ || ext == "tar"@ || ext == "gz"@ || ext == "bz2"@ || ext == "xz"@ || ext == "7z"@ || ext == "rar"@ {
        Some(("package-x-generic-symbolic"@, "ft-archive"@))
    } else if ext == "wasm"@ || ext == "so"@ || ext == "dylib"@ || ext == "dll"@ || ext == "exe"@ || ext == "o"@ || ext == "a"@ {
        Some(("application-x-executable-symbolic"@, "ft-binary"@))
    } else if ext == "lock"@ {
        Some(("dialog-password-symbolic"@, "ft-lock"@))
    } else if ext == "sql"@ {
        Some(("text-x-generic-symbolic"@, "ft-config"@))
    } else {
        Some(("text-x-generic-symbolic"@, "ft-default"@))
    }
}

fn ext_icon(ext: &Vec<char>) -> (r: Option<(&'static str, &'static str)>)
    ensures
        match r {
            Some((a, b)) => ext_icon_of(ext@) == Some((a@, b@)),
            None => ext_icon_of(ext@) is None,
        },
{
    if eq_str(&ext, "rs") {
        Some(("text-x-generic-symbolic", "ft-rust"))
    } else if eq_str(&ext, "js") || eq_str(&ext, "mjs") || eq_str(&ext, "cjs") || eq_str(&ext, "jsx") {
        Some(("text-x-generic-symbolic", "ft-js"))
    } else if eq_str(&ext, "ts") || eq_str(&ext, "tsx") || eq_str(&ext, "mts") || eq_str(&ext, "cts") {
        Some(("text-x-generic-symbolic", "ft-ts"))
    } else if eq_str(&ext, "html") || eq_str(&ext, "htm") || eq_str(&ext, "svelte") || eq_str(&ext, "vue") {
        Some(("text-html-symbolic", "ft-html"))
    } else if eq_str(&ext, "css") || eq_str(&ext, "scss") || eq_str(&ext, "sass") || eq_str(&ext, "less") {
        Some(("text-x-generic-symbolic", "ft-css"))
    } else if eq_str(&ext, "json") || eq_str(&ext, "jsonc") || eq_str(&ext, "json5") {
        Some(("text-x-generic-symbolic", "ft-json"))
    } else if eq_str(&ext, "yaml") || eq_str(&ext, "yml") {
        Some(("text-x-generic-symbolic", "ft-config"))
    } else if eq_str(&ext, "toml") || eq_str(&ext, "ini") || eq_str(&ext, "cfg") {
        Some(("text-x-generic-symbolic", "ft-config"))
    } else if eq_str(&ext, "xml") || eq_str(&ext, "svg") {
        Some(("text-x-generic-symbolic", "ft-html"))
    } else if eq_str(&ext, "md") || eq_str(&ext, "mdx") || eq_str(&ext, "txt") || eq_str(&ext, "rst") || eq_str(&ext, "adoc") {
        Some(("accessories-text-editor-symbolic", "ft-doc"))
    } else if eq_str(&ext, "py") || eq_str(&ext, "pyi") || eq_str(&ext, "pyw") {
        Some(("text-x-generic-symbolic", "ft-python"))
    } else if eq_str(&ext, "go") || eq_str(&ext, "mod") || eq_str(&ext, "sum") {
        Some(("text-x-generic-symbolic", "ft-go"))
    } else if eq_str(&ext, "c") || eq_str(&ext, "h") {
        Some(("text-x-generic-symbolic", "ft-c"))
    } else if eq_str(&ext, "cpp") || eq_str(&ext, "cxx") || eq_str(&ext, "cc") || eq_str(&ext, "hpp") || eq_str(&ext, "hxx") {
        Some(("text-x-generic-symbolic", "ft-c"))
    } else if eq_str(&ext, "java") || eq_str(&ext, "kt") || eq_str(&ext, "kts") {
        Some(("text-x-generic-symbolic", "ft-java"))
    } else if eq_str(&ext, "sh") || eq_str(&ext, "bash") || eq_str(&ext, "zsh") || eq_str(&ext, "fish") {
        Some(("utilities-terminal-symbolic", "ft-shell"))
    } else if eq_str(&ext, "png") || eq_str(&ext, "jpg") || eq_str(&ext, "jpeg") || eq_str(&ext, "gif") || eq_str(&ext, "webp") || eq_str(&ext, "ico") || eq_str(&ext, "bmp") || eq_str(&ext, "tiff") {
        Some(("image-x-generic-symbolic", "ft-image"))
    } else if eq_str(&ext, "zip") || eq_str(&ext, "tar") || eq_str(&ext, "gz") || eq_str(&ext, "bz2") || eq_str(&ext, "xz") || eq_str(&ext, "7z") || eq_str(&ext, "rar") {
        Some(("package-x-generic-symbolic", "ft-archive"))
    } else if eq_str(&ext, "wasm") || eq_str(&ext, "so") || eq_str(&ext, "dylib") || eq_str(&ext, "dll") || eq_str(&ext, "exe") || eq_str(&ext, "o") || eq_str(&ext, "a") {
        Some(("application-x-executable-symbolic", "ft-binary"))
    } else if eq_str(&ext, "lock") {
        Some(("dialog-password-symbolic", "ft-lock"))
    } else if eq_str(&ext, "sql") {
        Some(("text-x-generic-symbolic", "ft-config"))
    } else {
        Some(("text-x-generic-symbolic", "ft-default"))
    }
}

/// The icon and style class of a folder by its lower-cased name.
pub open spec fn folder_icon_lower_of(name: Seq<char>) -> Option<(Seq<char>, Seq<char>)> {
    if name == "src"@ || name == "lib"@ || name == "app"@ || name == "core"@ {
        Some(("folder-symbolic"@, "ft-source"@))
    } else if name == "test"@ || name == "tests"@ || name == "spec"@ || name == "specs"@ || name == "__tests__"@ {
        Some(("folder-symbolic"@, "ft-test"@))
    } else if name == "build"@ || name == "dist"@ || name == "out"@ || name == "target"@ || name == "bin"@ {
        Some(("folder-symbolic"@, "ft-build"@))
    } else if name == "node_modules"@ || name == "vendor"@ || name == ".cargo"@ || name == "deps"@ {
        Some(("folder-symbolic"@, "ft-dep"@))
    } else if name == "docs"@ || name == "doc"@ || name == "documentation"@ {
        Some(("folder-symbolic"@, "ft-doc"@))
    } else if name == "assets"@ || name == "static"@ || name == "public"@ || name == "images"@ || name == "img"@ || name == "media"@ {
        Some(("folder-symbolic"@, "ft-asset"@))
    } else if name == ".git"@ || name == ".github"@ || name == ".gitlab"@ {
        Some(("folder-symbolic"@, "ft-git"@))
    } else if name == "config"@ || name == "configs"@ || name == ".config"@ {
        Some(("folder-symbolic"@, "ft-config"@))
    } else {
        Some(("folder-symbolic"@, "ft-folder"@))
    }
}

fn folder_icon_lower(name: &Vec<char>) -> (r: Option<(&'static str, &'static str)>)
    ensures
        match r {
            Some((a, b)) => folder_icon_lower_of(name@) == Some((a@, b@)),
            None => folder_icon_lower_of(name@) is None,
        },
{
    if eq_str(&name, "src") || eq_str(&name, "lib") || eq_str(&name, "app") || eq_str(&name, "core") {
        Some(("folder-symbolic", "ft-source"))
    } else if eq_str(&name, "test") || eq_str(&name, "tests") || eq_str(&name, "spec") || eq_str(&name, "specs") || eq_str(&name, "__tests__") {
        Some(("folder-symbolic", "ft-test"))
    } else if eq_str(&name, "build") || eq_str(&name, "dist") || eq_str(&name, "out") || eq_str(&name, "target") || eq_str(&name, "bin") {
        Some(("folder-symbolic", "ft-build"))
    } else if eq_str(&name, "node_modules") || eq_str(&name, "vendor") || eq_str(&name, ".cargo") || eq_str(&name, "deps") {
        Some(("folder-symbolic", "ft-dep"))
    } else if eq_str(&name, "docs") || eq_str(&name, "doc") || eq_str(&name, "documentation") {
        Some(("folder-symbolic", "ft-doc"))
    } else if eq_str(&name, "assets") || eq_str(&name, "static") || eq_str(&name, "public") || eq_str(&name, "images") || eq_str(&name, "img") || eq_str(&name, "media") {
        Some(("folder-symbolic", "ft-asset"))
    } else if eq_str(&name, ".git") || eq_str(&name, ".github") || eq_str(&name, ".gitlab") {
        Some(("folder-symbolic", "ft-git"))
    } else if eq_str(&name, "config") || eq_str(&name, "configs") || eq_str(&name, ".config") {
        Some(("folder-symbolic", "ft-config"))
    } else {
        Some(("folder-symbolic", "ft-folder"))
    }
}

/// The kind of a file: images, PDFs, Word and other office documents by
/// extension (in any ASCII case), else code where the code viewer can show
/// it.
pub open spec fn kind_of_name(name: Seq<char>, code_preview: bool) -> Option<FileKind> {
    let media = match extension_of(name) {
        Some(e) => media_kind_of_ext(ascii_lower_of(e)),
        None => None,
    };
    if media is Some {
        media
    } else if code_preview {
        Some(FileKind::Code)
    } else {
        None
    }
}

/// The kind of a file the viewer can show, from its name and whether the
/// code viewer supports it; none for any other file.
pub fn kind_for_path(file_name: &str, code_preview: bool) -> (k: Option<FileKind>)
    ensures
        k == kind_of_name(file_name@, code_preview),
{
    let media = match extension(file_name) {
        Some(e) => {
            let lower = to_ascii_lower(&chars_of(e.as_str()));
            media_kind_of_lower_ext(&lower)
        },
        None => None,
    };
    if media.is_some() {
        media
    } else if code_preview {
        Some(FileKind::Code)
    } else {
        None
    }
}

/// The category of a file: images and documents by kind, code files by
/// their extension.
pub open spec fn category_of_name(name: Seq<char>, kind: FileKind) -> FileCategory {
    match kind {
        FileKind::Image => FileCategory::Images,
        FileKind::Pdf => FileCategory::Docs,
        FileKind::Docx => FileCategory::Docs,
        FileKind::Office => FileCategory::Docs,
        FileKind::Code => match extension_of(name) {
            Some(e) => category_of_ext(ascii_lower_of(e)),
            None => FileCategory::Other,
        },
    }
}

/// The category a file is filed under in the viewer.
pub fn category_for_path(file_name: &str, kind: FileKind) -> (c: FileCategory)
    ensures
        c == category_of_name(file_name@, kind),
{
    match kind {
        FileKind::Image => return FileCategory::Images,
        FileKind::Pdf | FileKind::Docx | FileKind::Office => return FileCategory::Docs,
        FileKind::Code => {},
    }
    match extension(file_name) {
        Some(e) => {
            let lower = to_ascii_lower(&chars_of(e.as_str()));
            category_of_lower_ext(&lower)
        },
        None => FileCategory::Other,
    }
}

// ─── Icons ───────────────────────────────────────────────────────────

/// The name for what `str::to_lowercase` returns: the full Unicode
/// lower-case mapping of a text.
pub uninterp spec fn unicode_lower(s: Seq<char>) -> Seq<char>;

/// `str::to_lowercase`. Claimed: the result is the lower-case mapping
/// named `unicode_lower` of the argument; which characters it maps, and
/// to what, is std's Unicode table and is left unsaid.
#[verifier::external_body]
pub(crate) fn to_lowercase(s: &str) -> (out: String)
    ensures
        out@ == unicode_lower(s@),
{
    s.to_lowercase()
}

/// The icon and style class of a file, from its lower-cased name and its
/// lower-cased text after the last `.`: a few well-known names first,
/// then the extension.
pub open spec fn file_icon_of(lower_name: Seq<char>, lower_ext: Seq<char>) -> (Seq<char>, Seq<char>) {
    match name_icon_of(lower_name) {
        Some(icon) => icon,
        None => ext_icon_of(lower_ext)->0,
    }
}

/// The icon and style class of a file from its lower-cased name and
/// lower-cased extension.
pub fn file_icon_lowered(lower_name: &str, lower_ext: &str) -> (r: (&'static str, &'static str))
    ensures
        (r.0@, r.1@) == file_icon_of(lower_name@, lower_ext@),
{
    let n = chars_of(lower_name);
    match name_icon(&n) {
        Some(icon) => icon,
        None => {
            let e = chars_of(lower_ext);
            match ext_icon(&e) {
                Some(icon) => icon,
                None => ("text-x-generic-symbolic", "ft-default"),
            }
        },
    }
}

/// The icon and style class of a file in the folder tree.
pub fn file_icon(name: &str) -> (r: (&'static str, &'static str))
    ensures
        (r.0@, r.1@) == file_icon_of(unicode_lower(name@), unicode_lower(after_last_dot(name@))),
{
    let lower_name = to_lowercase(name);
    let chars = chars_of(name);
    let tail = match find_last_dot(&chars) {
        Some(i) => slice_chars(&chars, i + 1, chars.len()),
        None => slice_chars(&chars, 0, chars.len()),
    };
    assert(tail@ =~= after_last_dot(name@));
    let tail_text = string_of(&tail);
    let lower_ext = to_lowercase(tail_text.as_str());
    file_icon_lowered(lower_name.as_str(), lower_ext.as_str())
}

/// The icon and style class of a folder, from its lower-cased name.
pub fn folder_icon_lowered(lower_name: &str) -> (r: (&'static str, &'static str))
    ensures
        (r.0@, r.1@) == folder_icon_lower_of(lower_name@)->0,
{
    let n = chars_of(lower_name);
    match folder_icon_lower(&n) {
        Some(icon) => icon,
        None => ("folder-symbolic", "ft-folder"),
    }
}

/// The icon and style class of a folder in the folder tree.
pub fn folder_icon(name: &str) -> (r: (&'static str, &'static str))
    ensures
        (r.0@, r.1@) == folder_icon_lower_of(unicode_lower(name@))->0,
{
    let lower = to_lowercase(name);
    folder_icon_lowered(lower.as_str())
}

// ─── Sizes ───────────────────────────────────────────────────────────

/// The unit a size is shown in: 0 for bytes, 1 for KB, 2 for MB, 3 for
/// GB; the largest whose amount is at least one.
pub open spec fn size_unit_of(bytes: nat) -> nat {
    if bytes >= 0x4000_0000 {
        3
    } else if bytes >= 0x10_0000 {
        2
    } else if bytes >= 0x400 {
        1
    } else {
        0
    }
}

/// The unit a size is shown in, and the number of bytes in that unit.
pub fn size_unit(bytes: u64) -> (r: (u32, u64))
    ensures
        r.0 == size_unit_of(bytes as nat),
        r.1 == (if r.0 == 3 { 0x4000_0000u64 } else if r.0 == 2 { 0x10_0000u64 } else if r.0 == 1 { 0x400u64 } else { 1u64 }),
{
    if bytes >= 0x4000_0000 {
        (3, 0x4000_0000)
    } else if bytes >= 0x10_0000 {
        (2, 0x10_0000)
    } else if bytes >= 0x400 {
        (1, 0x400)
    } else {
        (0, 1)
    }
}

/// The name of a size unit.
pub open spec fn unit_label_of(unit: nat) -> Seq<char> {
    if unit == 0 {
        "B"@
    } else if unit == 1 {
        "KB"@
    } else if unit == 2 {
        "MB"@
    } else {
        "GB"@
    }
}

/// The name of a size unit.
pub fn unit_label(unit: u32) -> (s: &'static str)
    ensures
        s@ == unit_label_of(unit as nat),
{
    if unit == 0 {
        "B"
    } else if unit == 1 {
        "KB"
    } else if unit == 2 {
        "MB"
    } else {
        "GB"
    }
}

/// A size under one kilobyte: `n B`.
pub fn format_byte_count(bytes: u64) -> (s: String)
    ensures
        s@ == decimal_digits(bytes as nat) + " B"@,
{
    let mut out: Vec<char> = Vec::new();
    push_decimal(&mut out, bytes);
    append_str(&mut out, " B");
    string_of(&out)
}

// ─── Modification times ──────────────────────────────────────────────

/// Whether a year of the Gregorian calendar has a 29th of February.
pub open spec fn leap_year(y: int) -> bool {
    y % 4 == 0 && (y % 100 != 0 || y % 400 == 0)
}

pub open spec fn year_length(y: int) -> int {
    if leap_year(y) {
        366
    } else {
        365
    }
}

/// The days of month `m` (1 to 12) of year `y`.
pub open spec fn month_length(y: int, m: int) -> int {
    if m == 2 {
        if leap_year(y) {
            29
        } else {
            28
        }
    } else if m == 4 || m == 6 || m == 9 || m == 11 {
        30
    } else {
        31
    }
}

/// The year, and the day within it counted from 0, that lie `rem` days
/// after the first of January of year `y`.
pub open spec fn year_and_day(y: int, rem: int) -> (int, int)
    decreases rem,
{
    if rem < year_length(y) {
        (y, rem)
    } else {
        year_and_day(y + 1, rem - year_length(y))
    }
}

/// The month, and the day within it counted from 0, that lie `rem` days
/// after the first day of month `m` of year `y`.
pub open spec fn month_and_day(y: int, m: int, rem: int) -> (int, int)
    decreases 13 - m,
{
    if m > 12 || rem < month_length(y, m) {
        (m, rem)
    } else {
        month_and_day(y, m + 1, rem - month_length(y, m))
    }
}

/// `n` in decimal, with zeros in front up to `width` digits.
pub open spec fn zero_padded(n: nat, width: nat) -> Seq<char> {
    let d = decimal_digits(n);
    if d.len() < width {
        Seq::new((width - d.len()) as nat, |i: int| '0') + d
    } else {
        d
    }
}

/// `YYYY-MM-DD HH:MM` (UTC) for seconds since the Unix epoch.
pub open spec fn timestamp_of(secs: nat) -> Seq<char> {
    let days = secs / 86400;
    let time_of_day = secs % 86400;
    let (y, rem) = year_and_day(1970, days as int);
    let (m, rem_in_month) = month_and_day(y, 1, rem);
    zero_padded(y as nat, 4) + "-"@ + zero_padded(m as nat, 2) + "-"@ + zero_padded((rem_in_month + 1) as nat, 2)
        + " "@ + zero_padded(time_of_day / 3600, 2) + ":"@ + zero_padded((time_of_day % 3600) / 60, 2)
}

#[verifier::spinoff_prover]
#[verifier::rlimit(30)]
fn is_leap(y: i64) -> (r: bool)
    ensures
        r == leap_year(y as int),
{
    y % 4 == 0 && (y % 100 != 0 || y % 400 == 0)
}

fn year_days(y: i64) -> (r: i64)
    ensures
        r == year_length(y as int),
{
    if is_leap(y) {
        366
    } else {
        365
    }
}

fn days_in_month(y: i64, m: i64) -> (r: i64)
    ensures
        r == month_length(y as int, m as int),
{
    if m == 2 {
        if is_leap(y) {
            29
        } else {
            28
        }
    } else if m == 4 || m == 6 || m == 9 || m == 11 {
        30
    } else {
        31
    }
}

/// Writes `n` in decimal with zeros in front up to `width` digits.
pub fn push_zero_padded(out: &mut Vec<char>, n: u64, width: usize)
    ensures
        final(out)@ == old(out)@ + zero_padded(n as nat, width as nat),
{
    let digits = crate::text::format_decimal(n);
    if digits.len() < width {
        let mut k: usize = 0;
        let ghost start = out@;
        while k < width - digits.len()
            invariant
                digits.len() < width,
                k <= width - digits.len(),
                out@ == start + Seq::new(k as nat, |i: int| '0'),
            decreases width - digits.len() - k,
        {
            out.push('0');
            assert(out@ =~= start + Seq::new((k + 1) as nat, |i: int| '0'));
            k += 1;
        }
        append_chars(out, &digits);
        assert(out@ =~= start + (Seq::new((width - digits@.len()) as nat, |i: int| '0') + digits@));
    } else {
        append_chars(out, &digits);
    }
}

/// `YYYY-MM-DD HH:MM` (UTC) for seconds since the Unix epoch, as the
/// folder tree's tooltips show modification times.
pub fn format_timestamp(secs: u64) -> (s: String)
    ensures
        s@ == timestamp_of(secs as nat),
{
    let days = secs / 86400;
    let time_of_day = secs % 86400;
    let hours = time_of_day / 3600;
    let minutes = (time_of_day % 3600) / 60;
    let mut y: i64 = 1970;
    let mut remaining: i64 = days as i64;
    while remaining >= year_days(y)
        invariant
            0 <= remaining <= days,
            1970 <= y,
            365 * (y - 1970) <= days - remaining,
            days <= 0xFFFF_FFFF_FFFF_FFFFu64 / 86400,
            year_and_day(y as int, remaining as int) == year_and_day(1970, days as int),
        decreases remaining,
    {
        let len = year_days(y);
        remaining -= len;
        y += 1;
    }
    let mut m: i64 = 1;
    while m <= 12 && remaining >= days_in_month(y, m)
        invariant
            1 <= m <= 13,
            0 <= remaining <= days,
            days <= 0xFFFF_FFFF_FFFF_FFFFu64 / 86400,
            month_and_day(y as int, m as int, remaining as int) == month_and_day(y as int, 1, year_and_day(1970, days as int).1),
            year_and_day(1970, days as int).0 == y,
        decreases 13 - m,
    {
        remaining -= days_in_month(y, m);
        m += 1;
    }
    let d = remaining + 1;
    let mut out: Vec<char> = Vec::new();
    push_zero_padded(&mut out, y as u64, 4);
    append_str(&mut out, "-");
    push_zero_padded(&mut out, m as u64, 2);
    append_str(&mut out, "-");
    push_zero_padded(&mut out, d as u64, 2);
    append_str(&mut out, " ");
    push_zero_padded(&mut out, hours, 2);
    append_str(&mut out, ":");
    push_zero_padded(&mut out, minutes, 2);
    string_of(&out)
}

/// The folder tree's tooltip for a file: its size as shown, then when it
/// was last changed (`unknown` when that cannot be read).
pub open spec fn tooltip_of(size: Seq<char>, modified_secs: Option<u64>) -> Seq<char> {
    size + "  \u{00B7}  "@ + match modified_secs {
        Some(t) => timestamp_of(t as nat),
        None => "unknown"@,
    }
}

/// The folder tree's tooltip for a file of the given shown size.
pub fn file_tooltip_text(size: &str, modified_secs: Option<u64>) -> (s: String)
    ensures
        s@ == tooltip_of(size@, modified_secs),
{
    let mut out = chars_of(size);
    append_str(&mut out, "  \u{00B7}  ");
    match modified_secs {
        Some(t) => {
            let stamp = format_timestamp(t);
            append_str(&mut out, stamp.as_str());
        },
        None => append_str(&mut out, "unknown"),
    }
    string_of(&out)
}

// ─── The viewer's file list ──────────────────────────────────────────

/// `str` order: by code point, a proper prefix first.
pub open spec fn text_less(a: Seq<char>, b: Seq<char>) -> bool
    decreases a.len(),
{
    if a.len() == 0 {
        b.len() > 0
    } else if b.len() == 0 {
        false
    } else if (a[0] as u32) < (b[0] as u32) {
        true
    } else if a[0] != b[0] {
        false
    } else {
        text_less(a.drop_first(), b.drop_first())
    }
}

/// Whether a file is listed before another: it changed later, or at the
/// same time and its name comes first.
pub open spec fn listed_before(a: (u64, Seq<char>), b: (u64, Seq<char>)) -> bool {
    a.0 > b.0 || (a.0 == b.0 && text_less(a.1, b.1))
}

/// Where a file goes in a list already in order: in front of the first
/// file it is listed before, searching from `k` (after the files it ties
/// with, as a stable sort keeps them).
pub open spec fn listing_pos_from(order: Seq<int>, keys: Seq<(u64, Seq<char>)>, x: (u64, Seq<char>), k: int) -> int
    decreases order.len() - k,
{
    if k < 0 || k >= order.len() {
        order.len() as int
    } else if listed_before(x, keys[order[k]]) {
        k
    } else {
        listing_pos_from(order, keys, x, k + 1)
    }
}

/// The positions of the first `n` files in list order.
pub open spec fn listing_order(keys: Seq<(u64, Seq<char>)>, n: nat) -> Seq<int>
    decreases n,
{
    if n == 0 {
        Seq::empty()
    } else {
        let o = listing_order(keys, (n - 1) as nat);
        o.insert(listing_pos_from(o, keys, keys[n - 1], 0), n - 1)
    }
}

pub open spec fn file_keys(files: Seq<(u64, String)>) -> Seq<(u64, Seq<char>)> {
    Seq::new(files.len(), |i: int| (files[i].0, files[i].1@))
}

proof fn lemma_listing_pos(order: Seq<int>, keys: Seq<(u64, Seq<char>)>, x: (u64, Seq<char>), k: int)
    requires
        0 <= k <= order.len(),
    ensures
        k <= listing_pos_from(order, keys, x, k) <= order.len(),
        forall|j: int| k <= j < listing_pos_from(order, keys, x, k) ==> !listed_before(x, #[trigger] keys[order[j]]),
        listing_pos_from(order, keys, x, k) < order.len() ==> listed_before(
            x,
            keys[order[listing_pos_from(order, keys, x, k)]],
        ),
    decreases order.len() - k,
{
    if k < order.len() && !listed_before(x, keys[order[k]]) {
        lemma_listing_pos(order, keys, x, k + 1);
    }
}

proof fn lemma_listing_shape(keys: Seq<(u64, Seq<char>)>, n: nat)
    ensures
        listing_order(keys, n).len() == n,
        forall|j: int| 0 <= j < n ==> 0 <= #[trigger] listing_order(keys, n)[j] < n,
    decreases n,
{
    if n > 0 {
        let o = listing_order(keys, (n - 1) as nat);
        lemma_listing_shape(keys, (n - 1) as nat);
        lemma_listing_pos(o, keys, keys[n - 1], 0);
        let p = listing_pos_from(o, keys, keys[n - 1], 0);
        let r = o.insert(p, n - 1);
        assert forall|j: int| 0 <= j < n implies 0 <= #[trigger] r[j] < n by {
            if j < p {
                assert(r[j] == o[j]);
            } else if j > p {
                assert(r[j] == o[j - 1]);
            }
        }
    }
}

proof fn lemma_text_less_asym(a: Seq<char>, b: Seq<char>)
    requires
        text_less(a, b),
    ensures
        !text_less(b, a),
    decreases a.len(),
{
    if a.len() > 0 && b.len() > 0 && a[0] == b[0] {
        assert(a.drop_first().len() < a.len());
        lemma_text_less_asym(a.drop_first(), b.drop_first());
    }
}

proof fn lemma_text_less_trans(a: Seq<char>, b: Seq<char>, c: Seq<char>)
    requires
        text_less(a, b),
        text_less(b, c),
    ensures
        text_less(a, c),
    decreases a.len(),
{
    if a.len() > 0 && b.len() > 0 && c.len() > 0 && a[0] == b[0] && b[0] == c[0] {
        lemma_text_less_trans(a.drop_first(), b.drop_first(), c.drop_first());
    }
}

/// The files of a list stand in list order: none is listed before one
/// that comes earlier.
pub open spec fn in_listing_order(keys: Seq<(u64, Seq<char>)>, o: Seq<int>) -> bool {
    forall|i: int, j: int| 0 <= i < j < o.len() ==> !listed_before(#[trigger] keys[o[j]], #[trigger] keys[o[i]])
}

proof fn lemma_listed_before_order(a: (u64, Seq<char>), b: (u64, Seq<char>), c: (u64, Seq<char>))
    ensures
        listed_before(a, b) ==> !listed_before(b, a),
        listed_before(a, b) && listed_before(b, c) ==> listed_before(a, c),
{
    if listed_before(a, b) && a.0 == b.0 {
        lemma_text_less_asym(a.1, b.1);
    }
    if listed_before(a, b) && listed_before(b, c) && a.0 == b.0 && b.0 == c.0 {
        lemma_text_less_trans(a.1, b.1, c.1);
    }
}

/// The viewer lists files in order: newest first, then by name.
pub proof fn law_listing_sorted(keys: Seq<(u64, Seq<char>)>, n: nat)
    requires
        n <= keys.len(),
    ensures
        in_listing_order(keys, listing_order(keys, n)),
    decreases n,
{
    if n > 0 {
        let o = listing_order(keys, (n - 1) as nat);
        law_listing_sorted(keys, (n - 1) as nat);
        lemma_listing_shape(keys, (n - 1) as nat);
        let x = keys[n - 1];
        lemma_listing_pos(o, keys, x, 0);
        let p = listing_pos_from(o, keys, x, 0);
        let r = o.insert(p, n - 1);
        assert(r.len() == o.len() + 1);
        assert forall|i: int, j: int| 0 <= i < j < r.len() implies !listed_before(#[trigger] keys[r[j]], #[trigger] keys[r[i]]) by {
            if j < p {
                assert(r[i] == o[i] && r[j] == o[j]);
            } else if j == p {
                assert(r[i] == o[i] && r[j] == n - 1);
                assert(!listed_before(x, keys[o[i]]));
            } else if i > p {
                assert(r[i] == o[i - 1] && r[j] == o[j - 1]);
            } else if i == p {
                assert(r[i] == n - 1 && r[j] == o[j - 1]);
                assert(listed_before(x, keys[o[p]]));
                lemma_listed_before_order(keys[o[j - 1]], x, keys[o[p]]);
                if j - 1 > p {
                    assert(!listed_before(keys[o[j - 1]], keys[o[p]]));
                }
            } else {
                assert(r[i] == o[i] && r[j] == o[j - 1]);
            }
        }
    }
}

fn text_less_exec(a: &[char], b: &[char]) -> (r: bool)
    ensures
        r == text_less(a@, b@),
{
    let mut i: usize = 0;
    assert(a@.skip(0) =~= a@);
    assert(b@.skip(0) =~= b@);
    while i < a.len() && i < b.len() && a[i] == b[i]
        invariant
            i <= a.len(),
            i <= b.len(),
            text_less(a@, b@) == text_less(a@.skip(i as int), b@.skip(i as int)),
        decreases a.len() - i,
    {
        assert(a@.skip(i as int).drop_first() =~= a@.skip(i + 1));
        assert(b@.skip(i as int).drop_first() =~= b@.skip(i + 1));
        i += 1;
    }
    if i == a.len() {
        i < b.len()
    } else if i == b.len() {
        false
    } else {
        assert(a@.skip(i as int)[0] == a@[i as int]);
        assert(b@.skip(i as int)[0] == b@[i as int]);
        (a[i] as u32) < (b[i] as u32)
    }
}

/// The order the viewer lists files in, as positions into `files` (each
/// file given by when it last changed and its name): newest first, then by
/// name.
pub fn listing_order_of(files: &Vec<(u64, String)>) -> (out: Vec<usize>)
    ensures
        Seq::new(out@.len(), |j: int| out@[j] as int) == listing_order(file_keys(files@), files@.len()),
{
    let ghost keys = file_keys(files@);
    let mut names: Vec<Vec<char>> = Vec::new();
    let mut m: usize = 0;
    while m < files.len()
        invariant
            m <= files.len(),
            names@.len() == m,
            forall|q: int| 0 <= q < m ==> (#[trigger] names@[q])@ == files@[q].1@,
        decreases files.len() - m,
    {
        names.push(chars_of(files[m].1.as_str()));
        m += 1;
    }
    let mut order: Vec<usize> = Vec::new();
    let mut i: usize = 0;
    while i < files.len()
        invariant
            i <= files.len(),
            keys == file_keys(files@),
            names@.len() == files@.len(),
            forall|q: int| 0 <= q < files@.len() ==> (#[trigger] names@[q])@ == files@[q].1@,
            Seq::new(order@.len(), |j: int| order@[j] as int) == listing_order(keys, i as nat),
        decreases files.len() - i,
    {
        let ghost o = listing_order(keys, i as nat);
        proof {
            lemma_listing_shape(keys, i as nat);
        }
        let t = files[i].0;
        let mut k: usize = 0;
        while k < order.len() && !(t > files[order[k]].0 || (t == files[order[k]].0 && text_less_exec(&names[i], &names[order[k]])))
            invariant
                k <= order.len(),
                keys == file_keys(files@),
                i < files.len(),
                names@.len() == files@.len(),
                forall|q: int| 0 <= q < files@.len() ==> (#[trigger] names@[q])@ == files@[q].1@,
                t == files@[i as int].0,
                o == listing_order(keys, i as nat),
                o.len() == i,
                forall|j: int| 0 <= j < i ==> 0 <= #[trigger] o[j] < i,
                Seq::new(order@.len(), |j: int| order@[j] as int) == o,
                listing_pos_from(o, keys, keys[i as int], 0) == listing_pos_from(o, keys, keys[i as int], k as int),
            decreases order.len() - k,
        {
            assert(o[k as int] == order@[k as int] as int);
            k += 1;
        }
        assert(listing_pos_from(o, keys, keys[i as int], 0) == k as int) by {
            if k < order.len() {
                assert(o[k as int] == order@[k as int] as int);
            }
        }
        order.insert(k, i);
        assert(Seq::new(order@.len(), |j: int| order@[j] as int) =~= o.insert(k as int, i as int));
        i += 1;
    }
    order
}

// ─── Git state in the folder tree ────────────────────────────────────

#[derive(Clone, Copy, Debug, PartialEq, Eq, Structural)]
pub enum GitStatus {
    Modified,
    Staged,
    Untracked,
    Conflict,
}

/// The bytes a character takes in UTF-8.
pub open spec fn utf8_width(c: char) -> int {
    if (c as u32) < 0x80 {
        1
    } else if (c as u32) < 0x800 {
        2
    } else if (c as u32) < 0x1_0000 {
        3
    } else {
        4
    }
}

/// The bytes a text takes in UTF-8.
pub open spec fn utf8_len(s: Seq<char>) -> int
    decreases s.len(),
{
    if s.len() == 0 {
        0
    } else {
        utf8_len(s.drop_last()) + utf8_width(s.last())
    }
}

/// The number of characters that make up the first three bytes of a
/// line, where a character ends exactly there; -1 where none does.
pub open spec fn chars_in_three_bytes(s: Seq<char>) -> int {
    if s.len() >= 1 && utf8_width(s[0]) == 3 {
        1
    } else if s.len() >= 2 && utf8_width(s[0]) + utf8_width(s[1]) == 3 {
        2
    } else if s.len() >= 3 && utf8_width(s[0]) == 1 && utf8_width(s[1]) == 1 && utf8_width(s[2]) == 1 {
        3
    } else {
        -1
    }
}

/// Whether `line[3..]` can be taken: the line is shorter than four bytes,
/// or a character ends at its third byte.
pub open spec fn porcelain_line_ok(line: Seq<char>) -> bool {
    utf8_len(line) < 4 || chars_in_three_bytes(line) >= 0
}

/// The ASCII character at byte 0 or 1 of a line, where that byte is one.
pub open spec fn ascii_byte(line: Seq<char>, i: int) -> Option<char> {
    if i == 0 && line.len() >= 1 && utf8_width(line[0]) == 1 {
        Some(line[0])
    } else if i == 1 && line.len() >= 2 && utf8_width(line[0]) == 1 && utf8_width(line[1]) == 1 {
        Some(line[1])
    } else {
        None
    }
}

/// The tree state of an index/work-tree status pair of `git status
/// --porcelain`.
pub open spec fn status_of_pair(x: Option<char>, y: Option<char>) -> Option<GitStatus> {
    if x == Some('U') || y == Some('U') || (x == Some('A') && y == Some('A')) || (x == Some('D') && y == Some('D')) {
        Some(GitStatus::Conflict)
    } else if x == Some('A') || (x == Some('M') && y == Some(' ')) || (x == Some('D') && y == Some(' ')) || x == Some('R') || x == Some('C') {
        Some(GitStatus::Staged)
    } else if y == Some('M') || y == Some('D') {
        Some(GitStatus::Modified)
    } else if x == Some('?') && y == Some('?') {
        Some(GitStatus::Untracked)
    } else {
        None
    }
}

/// The path (relative to the repository root) and state that one line
/// of `git status --porcelain` gives, if any.
pub open spec fn porcelain_entry_of(line: Seq<char>) -> Option<(Seq<char>, GitStatus)> {
    if utf8_len(line) < 4 {
        None
    } else {
        match status_of_pair(ascii_byte(line, 0), ascii_byte(line, 1)) {
            Some(st) => Some((trim_of(line.skip(chars_in_three_bytes(line))), st)),
            None => None,
        }
    }
}

pub open spec fn porcelain_step(acc: Seq<(Seq<char>, GitStatus)>, line: Seq<char>) -> Seq<(Seq<char>, GitStatus)> {
    match porcelain_entry_of(line) {
        Some(e) => acc.push(e),
        None => acc,
    }
}

pub open spec fn porcelain_stepper() -> spec_fn(Seq<(Seq<char>, GitStatus)>, Seq<char>) -> Seq<(Seq<char>, GitStatus)> {
    |acc: Seq<(Seq<char>, GitStatus)>, line: Seq<char>| porcelain_step(acc, line)
}

/// The paths and states of `git status --porcelain` output, in order.
pub open spec fn porcelain_of(text: Seq<char>) -> Seq<(Seq<char>, GitStatus)> {
    lines_of(text).fold_left(Seq::empty(), porcelain_stepper())
}

fn width_of(c: char) -> (w: usize)
    ensures
        w == utf8_width(c),
{
    if (c as u32) < 0x80 {
        1
    } else if (c as u32) < 0x800 {
        2
    } else if (c as u32) < 0x1_0000 {
        3
    } else {
        4
    }
}

proof fn lemma_utf8_len_prefix(s: Seq<char>, k: int)
    requires
        0 <= k <= s.len(),
    ensures
        utf8_len(s.take(k)) <= utf8_len(s),
        k >= 1 ==> utf8_len(s.take(k)) == utf8_len(s.take(k - 1)) + utf8_width(s[k - 1]),
    decreases s.len() - k,
{
    if k < s.len() {
        lemma_utf8_len_prefix(s, k + 1);
        assert(s.take(k + 1).drop_last() =~= s.take(k));
    } else {
        assert(s.take(k) =~= s);
    }
    if k >= 1 {
        assert(s.take(k).drop_last() =~= s.take(k - 1));
    }
}

/// Whether a line is four or more bytes long in UTF-8.
fn at_least_four_bytes(line: &[char]) -> (r: bool)
    ensures
        r == (utf8_len(line@) >= 4),
{
    let mut total: usize = 0;
    let mut i: usize = 0;
    while i < line.len() && total < 4
        invariant
            i <= line.len(),
            total == utf8_len(line@.take(i as int)),
            total <= 7,
        decreases line.len() - i,
    {
        proof {
            lemma_utf8_len_prefix(line@, i + 1);
        }
        total += width_of(line[i]);
        i += 1;
    }
    proof {
        lemma_utf8_len_prefix(line@, i as int);
        if i == line.len() {
            assert(line@.take(i as int) =~= line@);
        }
    }
    total >= 4
}

fn pair_status(x: Option<char>, y: Option<char>) -> (r: Option<GitStatus>)
    ensures
        r == status_of_pair(x, y),
{
    if x == Some('U') || y == Some('U') || (x == Some('A') && y == Some('A')) || (x == Some('D') && y == Some('D')) {
        Some(GitStatus::Conflict)
    } else if x == Some('A') || (x == Some('M') && y == Some(' ')) || (x == Some('D') && y == Some(' ')) || x == Some('R') || x == Some('C') {
        Some(GitStatus::Staged)
    } else if y == Some('M') || y == Some('D') {
        Some(GitStatus::Modified)
    } else if x == Some('?') && y == Some('?') {
        Some(GitStatus::Untracked)
    } else {
        None
    }
}

/// The path and state that one line of `git status --porcelain` gives.
pub fn porcelain_entry(line: &[char]) -> (r: Option<(String, GitStatus)>)
    requires
        porcelain_line_ok(line@),
    ensures
        match r {
            Some((p, st)) => porcelain_entry_of(line@) == Some((p@, st)),
            None => porcelain_entry_of(line@) is None,
        },
{
    if !at_least_four_bytes(line) {
        return None;
    }
    let w0 = width_of(line[0]);
    let x = if w0 == 1 { Some(line[0]) } else { None };
    let y = if w0 == 1 && line.len() >= 2 && width_of(line[1]) == 1 { Some(line[1]) } else { None };
    let k: usize = if w0 == 3 {
        1
    } else if line.len() >= 2 && w0 + width_of(line[1]) == 3 {
        2
    } else {
        3
    };
    proof {
        assert(utf8_len(line@) >= 4);
        if line.len() == 1 {
            assert(line@.drop_last() =~= Seq::<char>::empty());
        }
    }
    match pair_status(x, y) {
        Some(st) => {
            let rest = slice_chars(line, k, line.len());
            assert(rest@ =~= line@.skip(k as int));
            let path = trim(&rest);
            Some((string_of(&path), st))
        },
        None => None,
    }
}

/// The paths (relative to the repository root) and states that `git
/// status --porcelain -uall` reports, in order.
pub fn porcelain_statuses(text: &str) -> (out: Vec<(String, GitStatus)>)
    requires
        forall|i: int| 0 <= i < lines_of(text@).len() ==> porcelain_line_ok(#[trigger] lines_of(text@)[i]),
    ensures
        Seq::new(out@.len(), |i: int| (out@[i].0@, out@[i].1)) == porcelain_of(text@),
{
    let chars = chars_of(text);
    let lines = split_lines(&chars);
    let ghost ls = lines_of(text@);
    let mut out: Vec<(String, GitStatus)> = Vec::new();
    let mut i: usize = 0;
    while i < lines.len()
        invariant
            seqs_of(lines@) == ls,
            forall|j: int| 0 <= j < ls.len() ==> porcelain_line_ok(#[trigger] ls[j]),
            i <= lines.len(),
            Seq::new(out@.len(), |j: int| (out@[j].0@, out@[j].1)) == ls.take(i as int).fold_left(Seq::empty(), porcelain_stepper()),
        decreases lines.len() - i,
    {
        assert(ls[i as int] == lines@[i as int]@);
        assert(ls.take(i + 1).drop_last() =~= ls.take(i as int));
        let ghost before = Seq::new(out@.len(), |j: int| (out@[j].0@, out@[j].1));
        match porcelain_entry(&lines[i]) {
            Some(e) => {
                let ghost ev = (e.0@, e.1);
                out.push(e);
                assert(Seq::new(out@.len(), |j: int| (out@[j].0@, out@[j].1)) =~= before.push(ev));
            },
            None => {},
        }
        i += 1;
    }
    assert(ls.take(ls.len() as int) =~= ls);
    out
}

/// A path joined to a directory as `PathBuf::join` does on Unix: an
/// absolute path replaces the directory; otherwise the two are joined
/// with one `/`, unless the directory is empty or already ends in one.
pub open spec fn join_path(dir: Seq<char>, path: Seq<char>) -> Seq<char> {
    if path.len() > 0 && path[0] == '/' {
        path
    } else if dir.len() == 0 || dir.last() == '/' {
        dir + path
    } else {
        dir + "/"@ + path
    }
}

/// A path joined to a directory as `PathBuf::join` does on Unix.
pub fn join_path_text(dir: &str, path: &str) -> (r: String)
    ensures
        r@ == join_path(dir@, path@),
{
    let d = chars_of(dir);
    let p = chars_of(path);
    if p.len() > 0 && p[0] == '/' {
        return string_of(&p);
    }
    let mut out = d;
    if out.len() > 0 && out[out.len() - 1] != '/' {
        append_str(&mut out, "/");
    }
    append_chars(&mut out, &p);
    string_of(&out)
}

/// Whether no entry after the `i`th names the same path.
pub open spec fn last_for_path(s: Seq<(Seq<char>, GitStatus)>, i: int) -> bool {
    forall|j: int| i < j < s.len() ==> #[trigger] s[j].0 != s[i].0
}

/// The first `n` entries, each kept only when it is the last one naming its
/// path (as a map keeps the last state put under a key).
pub open spec fn last_per_path(s: Seq<(Seq<char>, GitStatus)>, n: nat) -> Seq<(Seq<char>, GitStatus)>
    decreases n,
{
    if n == 0 {
        Seq::empty()
    } else {
        let r = last_per_path(s, (n - 1) as nat);
        if last_for_path(s, n - 1) {
            r.push(s[n - 1])
        } else {
            r
        }
    }
}

/// Every porcelain entry with its path joined to the root.
pub open spec fn joined_entries(text: Seq<char>, root: Seq<char>) -> Seq<(Seq<char>, GitStatus)> {
    Seq::new(porcelain_of(text).len(), |i: int| (join_path(root, porcelain_of(text)[i].0), porcelain_of(text)[i].1))
}

/// The changed files of a repository and their states, as the folder tree
/// marks them: the output of `git status --porcelain -uall` read entry by
/// entry, each path joined to the repository root (the trimmed output of
/// `git rev-parse --show-toplevel`); a path named twice keeps its last
/// state. When either command failed (`None`), no file is marked.
pub fn repo_file_states(status_out: Option<&str>, root_out: Option<&str>) -> (out: Vec<(String, GitStatus)>)
    requires
        status_out matches Some(t) ==> forall|i: int|
            0 <= i < lines_of(t@).len() ==> porcelain_line_ok(#[trigger] lines_of(t@)[i]),
    ensures
        match (status_out, root_out) {
            (Some(t), Some(r)) => Seq::new(out@.len(), |i: int| (out@[i].0@, out@[i].1)) == last_per_path(
                joined_entries(t@, trim_of(r@)),
                joined_entries(t@, trim_of(r@)).len(),
            ),
            _ => out@.len() == 0,
        },
{
    let (text, root_text) = match (status_out, root_out) {
        (Some(t), Some(r)) => (t, r),
        _ => return Vec::new(),
    };
    let root = string_of(&trim(&chars_of(root_text)));
    let entries = porcelain_statuses(text);
    let ghost pv = porcelain_of(text@);
    let mut out: Vec<(String, GitStatus)> = Vec::new();
    let mut i: usize = 0;
    while i < entries.len()
        invariant
            i <= entries.len(),
            Seq::new(entries@.len(), |j: int| (entries@[j].0@, entries@[j].1)) == pv,
            root@ == trim_of(root_text@),
            Seq::new(out@.len(), |j: int| (out@[j].0@, out@[j].1)) == Seq::new(
                i as nat,
                |j: int| (join_path(root@, pv[j].0), pv[j].1),
            ),
        decreases entries.len() - i,
    {
        assert(pv[i as int] == (entries@[i as int].0@, entries@[i as int].1));
        let joined = join_path_text(root.as_str(), entries[i].0.as_str());
        let ghost before = Seq::new(out@.len(), |j: int| (out@[j].0@, out@[j].1));
        let ghost jv = joined@;
        out.push((joined, entries[i].1));
        assert(Seq::new(out@.len(), |j: int| (out@[j].0@, out@[j].1)) =~= before.push((jv, pv[i as int].1)));
        assert(before.push((jv, pv[i as int].1)) =~= Seq::new((i + 1) as nat, |j: int| (join_path(root@, pv[j].0), pv[j].1)));
        i += 1;
    }
    let ghost all = Seq::new(out@.len(), |j: int| (out@[j].0@, out@[j].1));
    assert(all =~= joined_entries(text@, root@));
    let mut kept: Vec<(String, GitStatus)> = Vec::new();
    let mut k: usize = 0;
    while k < out.len()
        invariant
            k <= out.len(),
            all == Seq::new(out@.len(), |j: int| (out@[j].0@, out@[j].1)),
            Seq::new(kept@.len(), |j: int| (kept@[j].0@, kept@[j].1)) == last_per_path(all, k as nat),
        decreases out.len() - k,
    {
        let mut m: usize = k + 1;
        let mut last = true;
        while m < out.len()
            invariant
                k < m <= out.len(),
                all == Seq::new(out@.len(), |j: int| (out@[j].0@, out@[j].1)),
                last == (forall|j: int| k < j < m ==> #[trigger] all[j].0 != all[k as int].0),
            decreases out.len() - m,
        {
            assert(all[m as int].0 == out@[m as int].0@ && all[k as int].0 == out@[k as int].0@);
            if eq_str(&chars_of(out[m].0.as_str()), out[k].0.as_str()) {
                last = false;
            }
            proof {
                assert forall|j: int| k < j < m + 1 implies (#[trigger] all[j].0 != all[k as int].0) == (if j == m {
                    all[m as int].0 != all[k as int].0
                } else {
                    all[j].0 != all[k as int].0
                }) by {}
            }
            m += 1;
        }
        let ghost before = Seq::new(kept@.len(), |j: int| (kept@[j].0@, kept@[j].1));
        if last {
            let e = (out[k].0.clone(), out[k].1);
            kept.push(e);
            assert(Seq::new(kept@.len(), |j: int| (kept@[j].0@, kept@[j].1)) =~= before.push(all[k as int]));
        }
        k += 1;
    }
    kept
}

/// The order keys of a folder's entries (name, and whether it is a
/// directory): directories before files, then by name.
pub open spec fn tree_keys(entries: Seq<(String, bool)>) -> Seq<(u64, Seq<char>)> {
    Seq::new(entries.len(), |i: int| (if entries[i].1 { 1u64 } else { 0u64 }, entries[i].0@))
}

/// Whether an entry's name hides it from the tree.
pub open spec fn is_hidden(name: Seq<char>) -> bool {
    name.len() > 0 && name[0] == '.'
}

/// The entries of `order` whose names are not hidden, in order.
pub open spec fn shown_of(order: Seq<int>, entries: Seq<(String, bool)>) -> Seq<int>
    decreases order.len(),
{
    if order.len() == 0 {
        Seq::empty()
    } else {
        let rest = shown_of(order.drop_last(), entries);
        if is_hidden(entries[order.last()].0@) {
            rest
        } else {
            rest.push(order.last())
        }
    }
}

/// The order the folder tree lists a folder's entries in: directories
/// first, then files, each by name (a stable sort), leaving out the
/// entries whose names start with `.`.
pub open spec fn tree_order_of(entries: Seq<(String, bool)>) -> Seq<int> {
    shown_of(listing_order(tree_keys(entries), entries.len()), entries)
}

/// The positions of a folder's entries (name, and whether it is a
/// directory) in the order the folder tree lists them.
pub fn tree_order(entries: &Vec<(String, bool)>) -> (out: Vec<usize>)
    ensures
        Seq::new(out@.len(), |j: int| out@[j] as int) == tree_order_of(entries@),
{
    let mut keyed: Vec<(u64, String)> = Vec::new();
    let mut m: usize = 0;
    while m < entries.len()
        invariant
            m <= entries.len(),
            file_keys(keyed@) == tree_keys(entries@).take(m as int),
        decreases entries.len() - m,
    {
        let k: u64 = if entries[m].1 { 1 } else { 0 };
        let ghost before = file_keys(keyed@);
        keyed.push((k, entries[m].0.clone()));
        assert(file_keys(keyed@) =~= before.push((k, entries@[m as int].0@)));
        assert(tree_keys(entries@).take(m + 1) =~= tree_keys(entries@).take(m as int).push((k, entries@[m as int].0@)));
        m += 1;
    }
    assert(tree_keys(entries@).take(entries@.len() as int) =~= tree_keys(entries@));
    let order = listing_order_of(&keyed);
    let ghost ov = Seq::new(order@.len(), |j: int| order@[j] as int);
    proof {
        lemma_listing_shape(tree_keys(entries@), entries@.len());
    }
    let mut out: Vec<usize> = Vec::new();
    let mut i: usize = 0;
    while i < order.len()
        invariant
            i <= order.len(),
            ov == Seq::new(order@.len(), |j: int| order@[j] as int),
            ov == listing_order(tree_keys(entries@), entries@.len()),
            ov.len() == entries@.len(),
            forall|j: int| 0 <= j < ov.len() ==> 0 <= #[trigger] ov[j] < entries@.len(),
            Seq::new(out@.len(), |j: int| out@[j] as int) == shown_of(ov.take(i as int), entries@),
        decreases order.len() - i,
    {
        assert(ov.take(i + 1).drop_last() =~= ov.take(i as int));
        assert(ov.take(i + 1).last() == ov[i as int]);
        let e = order[i];
        assert(ov[i as int] == e as int);
        let name = chars_of(entries[e].0.as_str());
        let hidden = name.len() > 0 && name[0] == '.';
        if !hidden {
            let ghost before = Seq::new(out@.len(), |j: int| out@[j] as int);
            out.push(e);
            assert(Seq::new(out@.len(), |j: int| out@[j] as int) =~= before.push(e as int));
        }
        i += 1;
    }
    assert(ov.take(ov.len() as int) =~= ov);
    out
}

/// How much a state weighs when a folder shows the state of its files.
pub open spec fn status_weight(s: GitStatus) -> int {
    match s {
        GitStatus::Conflict => 3,
        GitStatus::Modified => 2,
        GitStatus::Staged => 1,
        GitStatus::Untracked => 0,
    }
}

/// The heaviest state among the states of a folder's files, the first of
/// equal weight kept; none for a folder without changed files.
pub open spec fn worst_of(statuses: Seq<GitStatus>) -> Option<GitStatus>
    decreases statuses.len(),
{
    if statuses.len() == 0 {
        None
    } else {
        match worst_of(statuses.drop_last()) {
            None => Some(statuses.last()),
            Some(w) => if status_weight(statuses.last()) > status_weight(w) {
                Some(statuses.last())
            } else {
                Some(w)
            },
        }
    }
}

/// The heaviest state among the states of the files under a folder.
pub fn worst_status(statuses: &[GitStatus]) -> (r: Option<GitStatus>)
    ensures
        r == worst_of(statuses@),
{
    let mut worst: Option<GitStatus> = None;
    let mut i: usize = 0;
    while i < statuses.len()
        invariant
            i <= statuses.len(),
            worst == worst_of(statuses@.take(i as int)),
        decreases statuses.len() - i,
    {
        assert(statuses@.take(i + 1).drop_last() =~= statuses@.take(i as int));
        let s = statuses[i];
        let weight = |g: GitStatus| -> (w: u8)
            ensures
                w == status_weight(g),
            {
                match g {
                    GitStatus::Conflict => 3,
                    GitStatus::Modified => 2,
                    GitStatus::Staged => 1,
                    GitStatus::Untracked => 0,
                }
            };
        worst = Some(match worst {
            None => s,
            Some(w) => if weight(s) > weight(w) {
                s
            } else {
                w
            },
        });
        i += 1;
    }
    assert(statuses@.take(statuses@.len() as int) =~= statuses@);
    worst
}

/// A finished part of a path is kept unless it is empty (a repeated or
/// trailing `/`) or `.`.
pub open spec fn keep_part(done: Seq<Seq<char>>, part: Seq<char>) -> Seq<Seq<char>> {
    if part.len() == 0 || part == "."@ {
        done
    } else {
        done.push(part)
    }
}

/// The parts of a path finished so far, and the part being read.
pub open spec fn parts_scan(p: Seq<char>) -> (Seq<Seq<char>>, Seq<char>)
    decreases p.len(),
{
    if p.len() == 0 {
        (Seq::empty(), Seq::empty())
    } else {
        let (done, cur) = parts_scan(p.drop_last());
        if p.last() == '/' {
            (keep_part(done, cur), Seq::empty())
        } else {
            (done, cur.push(p.last()))
        }
    }
}

/// The components of a Unix path, as `Path::components` gives them: the
/// root for a leading `/`; a leading `.` when the path is `.` or starts
/// with `./`; then every part between separators, leaving out empty parts
/// and `.`.
pub open spec fn path_components(p: Seq<char>) -> Seq<Seq<char>> {
    let root = p.len() > 0 && p[0] == '/';
    let cur = !root && p.len() > 0 && p[0] == '.' && (p.len() == 1 || p[1] == '/');
    let (done, last) = parts_scan(p);
    (if root { seq!["/"@] } else { Seq::empty() }) + (if cur { seq!["."@] } else { Seq::empty() }) + keep_part(done, last)
}

/// Whether `base` is a leading part of `path` in whole components, as
/// `Path::starts_with` answers on Unix.
pub open spec fn path_has_base(path: Seq<char>, base: Seq<char>) -> bool {
    let pc = path_components(path);
    let bc = path_components(base);
    bc.len() <= pc.len() && pc.take(bc.len() as int) == bc
}

fn path_components_of(p: &[char]) -> (out: Vec<Vec<char>>)
    ensures
        seqs_of(out@) == path_components(p@),
{
    let root = p.len() > 0 && p[0] == '/';
    let cur = !root && p.len() > 0 && p[0] == '.' && (p.len() == 1 || p[1] == '/');
    let mut done: Vec<Vec<char>> = Vec::new();
    let mut part: Vec<char> = Vec::new();
    let mut i: usize = 0;
    while i < p.len()
        invariant
            i <= p.len(),
            (seqs_of(done@), part@) == parts_scan(p@.take(i as int)),
        decreases p.len() - i,
    {
        assert(p@.take(i + 1).drop_last() =~= p@.take(i as int));
        assert(p@.take(i + 1).last() == p@[i as int]);
        if p[i] == '/' {
            let keep = part.len() > 0 && !(part.len() == 1 && part[0] == '.');
            proof {
                reveal_strlit(".");
                if part@.len() == 1 && part@[0] == '.' {
                    assert(part@ =~= "."@);
                }
                if part@ == "."@ {
                    assert(part@.len() == 1 && part@[0] == '.');
                }
            }
            if keep {
                let ghost before = seqs_of(done@);
                let ghost pv = part@;
                done.push(part);
                assert(seqs_of(done@) =~= before.push(pv));
            }
            part = Vec::new();
        } else {
            part.push(p[i]);
        }
        i += 1;
    }
    assert(p@.take(p@.len() as int) =~= p@);
    let keep = part.len() > 0 && !(part.len() == 1 && part[0] == '.');
    proof {
        reveal_strlit(".");
        if part@.len() == 1 && part@[0] == '.' {
            assert(part@ =~= "."@);
        }
        if part@ == "."@ {
            assert(part@.len() == 1 && part@[0] == '.');
        }
    }
    if keep {
        let ghost before = seqs_of(done@);
        let ghost pv = part@;
        done.push(part);
        assert(seqs_of(done@) =~= before.push(pv));
    }
    let mut out: Vec<Vec<char>> = Vec::new();
    if root {
        out.push(chars_of("/"));
    }
    if cur {
        out.push(chars_of("."));
    }
    let ghost head = seqs_of(out@);
    let ghost tail = seqs_of(done@);
    let mut k: usize = 0;
    while k < done.len()
        invariant
            k <= done.len(),
            tail == seqs_of(done@),
            seqs_of(out@) == head + tail.take(k as int),
        decreases done.len() - k,
    {
        let ghost before = seqs_of(out@);
        let c = slice_chars(&done[k], 0, done[k].len());
        assert(c@ =~= tail[k as int]);
        let ghost cv = c@;
        out.push(c);
        assert(seqs_of(out@) =~= before.push(cv));
        assert(tail.take(k + 1) =~= tail.take(k as int).push(tail[k as int]));
        k += 1;
    }
    assert(tail.take(tail.len() as int) =~= tail);
    proof {
        let rs: Seq<Seq<char>> = if root { seq!["/"@] } else { Seq::empty() };
        let cs: Seq<Seq<char>> = if cur { seq!["."@] } else { Seq::empty() };
        assert(head =~= rs + cs);
    }
    out
}

/// Whether `base` is a leading part of `path` in whole components
/// (`Path::starts_with` on Unix).
pub fn path_starts_with(path: &str, base: &str) -> (r: bool)
    ensures
        r == path_has_base(path@, base@),
{
    let pc = path_components_of(&chars_of(path));
    let bc = path_components_of(&chars_of(base));
    let ghost pv = seqs_of(pc@);
    let ghost bv = seqs_of(bc@);
    if bc.len() > pc.len() {
        return false;
    }
    let mut i: usize = 0;
    while i < bc.len()
        invariant
            i <= bc.len() <= pc.len(),
            pv == seqs_of(pc@),
            bv == seqs_of(bc@),
            pv == path_components(path@),
            bv == path_components(base@),
            forall|j: int| 0 <= j < i ==> #[trigger] pv[j] == bv[j],
        decreases bc.len() - i,
    {
        assert(pv[i as int] == pc@[i as int]@ && bv[i as int] == bc@[i as int]@);
        if !chars_eq(&pc[i], &bc[i]) {
            proof {
                let t = pv.take(bv.len() as int);
                assert(t[i as int] == pv[i as int]);
                assert(t[i as int] != bv[i as int]);
                assert(t != bv);
                assert(pv == path_components(path@));
                assert(bv == path_components(base@));
            }
            return false;
        }
        i += 1;
    }
    assert(pv.take(bv.len() as int) =~= bv);
    true
}

/// The states of the changed files that lie under `dir`, in order.
pub open spec fn states_under(entries: Seq<(Seq<char>, GitStatus)>, dir: Seq<char>) -> Seq<GitStatus>
    decreases entries.len(),
{
    if entries.len() == 0 {
        Seq::empty()
    } else {
        let rest = states_under(entries.drop_last(), dir);
        if path_has_base(entries.last().0, dir) {
            rest.push(entries.last().1)
        } else {
            rest
        }
    }
}

pub open spec fn entries_view(v: Seq<(String, GitStatus)>) -> Seq<(Seq<char>, GitStatus)> {
    Seq::new(v.len(), |i: int| (v[i].0@, v[i].1))
}

/// The state a folder shows: the heaviest state of the changed files
/// under it.
pub fn status_for_dir(entries: &Vec<(String, GitStatus)>, dir: &str) -> (r: Option<GitStatus>)
    ensures
        r == worst_of(states_under(entries_view(entries@), dir@)),
{
    let ghost ev = entries_view(entries@);
    let mut under: Vec<GitStatus> = Vec::new();
    let mut i: usize = 0;
    while i < entries.len()
        invariant
            i <= entries.len(),
            ev == entries_view(entries@),
            under@ == states_under(ev.take(i as int), dir@),
        decreases entries.len() - i,
    {
        assert(ev.take(i + 1).drop_last() =~= ev.take(i as int));
        assert(ev.take(i + 1).last() == (entries@[i as int].0@, entries@[i as int].1));
        if path_starts_with(entries[i].0.as_str(), dir) {
            under.push(entries[i].1);
        }
        i += 1;
    }
    assert(ev.take(ev.len() as int) =~= ev);
    worst_status(under.as_slice())
}

/// The state a folder shows is one of its files' states, and no file
/// under it weighs more.
pub proof fn law_worst_is_heaviest(statuses: Seq<GitStatus>)
    ensures
        worst_of(statuses) is None <==> statuses.len() == 0,
        worst_of(statuses) matches Some(w) ==> statuses.contains(w),
        worst_of(statuses) matches Some(w) ==> forall|i: int|
            0 <= i < statuses.len() ==> status_weight(#[trigger] statuses[i]) <= status_weight(w),
    decreases statuses.len(),
{
    if statuses.len() > 0 {
        let rest = statuses.drop_last();
        law_worst_is_heaviest(rest);
        match worst_of(rest) {
            None => {
                assert(statuses[statuses.len() - 1] == statuses.last());
            },
            Some(w) => {
                if status_weight(statuses.last()) > status_weight(w) {
                    assert(statuses[statuses.len() - 1] == statuses.last());
                } else {
                    let k = choose|k: int| 0 <= k < rest.len() && rest[k] == w;
                    assert(statuses[k] == w);
                }
                assert forall|i: int| 0 <= i < statuses.len() implies status_weight(#[trigger] statuses[i]) <= status_weight(worst_of(statuses)->0) by {
                    if i < rest.len() {
                        assert(statuses[i] == rest[i]);
                    }
                }
            },
        }
    }
}

/// The style class of a file's or folder's state dot.
pub open spec fn git_status_css_of(status: GitStatus) -> Seq<char> {
    match status {
        GitStatus::Modified => "git-modified"@,
        GitStatus::Staged => "git-staged"@,
        GitStatus::Untracked => "git-untracked"@,
        GitStatus::Conflict => "git-conflict"@,
    }
}

/// The style class of a file's or folder's state dot.
pub fn git_status_css(status: GitStatus) -> (s: &'static str)
    ensures
        s@ == git_status_css_of(status),
{
    match status {
        GitStatus::Modified => "git-modified",
        GitStatus::Staged => "git-staged",
        GitStatus::Untracked => "git-untracked",
        GitStatus::Conflict => "git-conflict",
    }
}

// ─── Breadcrumbs ─────────────────────────────────────────────────────

pub open spec fn segment_step(st: (Seq<Seq<char>>, Seq<char>), c: char) -> (Seq<Seq<char>>, Seq<char>) {
    if c == '/' {
        (if st.1.len() > 0 { st.0.push(st.1) } else { st.0 }, Seq::empty())
    } else {
        (st.0, st.1.push(c))
    }
}

pub open spec fn segment_stepper() -> spec_fn((Seq<Seq<char>>, Seq<char>), char) -> (Seq<Seq<char>>, Seq<char>) {
    |st: (Seq<Seq<char>>, Seq<char>), c: char| segment_step(st, c)
}

/// `split('/')` without the empty pieces.
pub open spec fn path_segments_of(s: Seq<char>) -> Seq<Seq<char>> {
    let st = s.fold_left((Seq::<Seq<char>>::empty(), Seq::<char>::empty()), segment_stepper());
    if st.1.len() > 0 {
        st.0.push(st.1)
    } else {
        st.0
    }
}

/// The breadcrumb pieces of a folder: its path with the home directory
/// written as `~`, split at `/`, without empty pieces.
pub fn breadcrumb_segments(path: &str, home: &str) -> (out: Vec<Vec<char>>)
    ensures
        seqs_of(out@) == path_segments_of(crate::theme::tilde_path_of(path@, home@)),
{
    let shown = crate::theme::tilde_path(path, home);
    let s = chars_of(shown.as_str());
    let mut parts: Vec<Vec<char>> = Vec::new();
    let mut current: Vec<char> = Vec::new();
    let mut i: usize = 0;
    while i < s.len()
        invariant
            i <= s.len(),
            (seqs_of(parts@), current@) == s@.take(i as int).fold_left(
                (Seq::<Seq<char>>::empty(), Seq::<char>::empty()),
                segment_stepper(),
            ),
        decreases s.len() - i,
    {
        assert(s@.take(i + 1).drop_last() =~= s@.take(i as int));
        let c = s[i];
        if c == '/' {
            if current.len() > 0 {
                let piece = current;
                push_seq(&mut parts, piece);
            }
            current = Vec::new();
        } else {
            current.push(c);
        }
        i += 1;
    }
    assert(s@.take(s@.len() as int) =~= s@);
    if current.len() > 0 {
        push_seq(&mut parts, current);
    }
    parts
}

/// The days of months `m` to 12 of year `y`.
pub open spec fn days_from_month(y: int, m: int) -> int
    decreases 13 - m,
{
    if m > 12 {
        0
    } else {
        month_length(y, m) + days_from_month(y, m + 1)
    }
}

proof fn lemma_year_and_day(y: int, rem: int)
    requires
        rem >= 0,
    ensures
        year_and_day(y, rem).0 >= y,
        0 <= year_and_day(y, rem).1 < year_length(year_and_day(y, rem).0),
    decreases rem,
{
    if rem >= year_length(y) {
        lemma_year_and_day(y + 1, rem - year_length(y));
    }
}

proof fn lemma_month_and_day(y: int, m: int, rem: int)
    requires
        1 <= m <= 12,
        0 <= rem < days_from_month(y, m),
    ensures
        m <= month_and_day(y, m, rem).0 <= 12,
        0 <= month_and_day(y, m, rem).1 < month_length(y, month_and_day(y, m, rem).0),
    decreases 13 - m,
{
    if rem >= month_length(y, m) {
        if m == 12 {
            assert(days_from_month(y, 13) == 0);
        } else {
            lemma_month_and_day(y, m + 1, rem - month_length(y, m));
        }
    }
}

/// Every modification time is shown as a real calendar date: a year from
/// 1970 on, a month from 1 to 12, a day of that month, an hour under 24
/// and a minute under 60.
pub proof fn law_timestamp_is_a_date(secs: nat)
    ensures
        ({
            let days = secs / 86400;
            let (y, rem) = year_and_day(1970, days as int);
            let (m, r) = month_and_day(y, 1, rem);
            &&& y >= 1970
            &&& 1 <= m <= 12
            &&& 1 <= r + 1 <= month_length(y, m)
            &&& (secs % 86400) / 3600 < 24
            &&& ((secs % 86400) % 3600) / 60 < 60
        }),
{
    let days = secs / 86400;
    lemma_year_and_day(1970, days as int);
    let (y, rem) = year_and_day(1970, days as int);
    reveal_with_fuel(days_from_month, 13);
    assert(days_from_month(y, 1) == year_length(y));
    lemma_month_and_day(y, 1, rem);
}

} // verus!
