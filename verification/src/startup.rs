//! What the program starts with: its QML namespace, the address of its root QML file, its
//! icon, the style it falls back to, and the port of the LanguageTool server it launches.
use vstd::prelude::*;
use vstd::string::*;

verus! {

/// The QML namespace of the editor.
pub fn namespace() -> (r: &'static str)
    ensures
        r@ == "org.dimkar.rhesis"@,
{
    "org.dimkar.rhesis"
}

/// The path of the window icon.
pub fn logo_path() -> (r: &'static str)
    ensures
        r@ == "logo.png"@,
{
    "logo.png"
}

/// The port on which the launched LanguageTool server listens.
pub fn language_tool_port() -> (r: &'static str)
    ensures
        r@ == "2699"@,
{
    "2699"
}

/// The Qt Quick Controls style to set: the KDE desktop style, unless the environment already
/// names one.
pub fn fallback_style(style_from_env: bool) -> (r: Option<&'static str>)
    ensures
        style_from_env ==> r is None,
        !style_from_env ==> (r matches Some(s) && s@ == "org.kde.desktop"@),
{
    if style_from_env {
        None
    } else {
        Some("org.kde.desktop")
    }
}

/// A namespace as a path: every `.` becomes `/`.
pub open spec fn dots_to_slashes(s: Seq<char>) -> Seq<char> {
    s.map_values(|c: char| if c == '.' { '/' } else { c })
}

/// `s.replace(".", "/")`.
pub fn replace_dots(s: &str) -> (r: String)
    ensures
        r@ == dots_to_slashes(s@),
{
    let n = s.unicode_len();
    let mut r = String::new();
    let mut i: usize = 0;
    while i < n
        invariant
            n == s@.len(),
            i <= n,
            r@ == dots_to_slashes(s@.take(i as int)),
        decreases n - i,
    {
        let c = s.get_char(i);
        let ghost before = r@;
        if c == '.' {
            proof {
                reveal_strlit("/");
            }
            r.append("/");
        } else {
            r.append(s.substring_char(i, i + 1));
            assert(s@.subrange(i as int, i + 1) =~= seq![c]);
        }
        assert(dots_to_slashes(s@.take(i + 1)) =~= before + dots_to_slashes(seq![c]));
        assert(r@ =~= dots_to_slashes(s@.take(i + 1)));
        i = i + 1;
    }
    assert(s@.take(n as int) =~= s@);
    r
}

/// Replacing the dots keeps the length and every other character, and leaves no dot.
pub proof fn law_no_dot_remains(s: Seq<char>)
    ensures
        dots_to_slashes(s).len() == s.len(),
        forall|i: int| 0 <= i < s.len() ==> #[trigger] dots_to_slashes(s)[i] != '.',
        forall|i: int| 0 <= i < s.len() && s[i] != '.' ==> #[trigger] dots_to_slashes(s)[i] == s[i],
{
}

/// The address of the root QML file of a module with this namespace.
pub open spec fn root_qml_address(namespace: Seq<char>) -> Seq<char> {
    "qrc:/qt/qml/"@ + dots_to_slashes(namespace) + "/src/interop/qml/Root.qml"@
}

/// The address of the root QML file of a module with this namespace.
pub fn root_qml_url(namespace: &str) -> (r: String)
    ensures
        r@ == root_qml_address(namespace@),
{
    let mut r = String::from_str("qrc:/qt/qml/");
    let path = replace_dots(namespace);
    r.append(path.as_str());
    r.append("/src/interop/qml/Root.qml");
    r
}

} // verus!
