//! Registering the viewer as the default image viewer. Writing the registry
//! is done by the program; these are the values it writes, in order.
use crate::utils::text::push_str;
use vstd::prelude::*;

verus! {

/// The extensions associated with the viewer.
pub const ASSOCIATED_EXTENSIONS: [&'static str; 9] = [
    ".png",
    ".jpg",
    ".jpeg",
    ".bmp",
    ".gif",
    ".webp",
    ".tiff",
    ".tif",
    ".avif",
];

/// The programmatic identifier of the viewer's file type.
pub const PROG_ID: &'static str = "ShImages.ImageViewer";

/// The friendly name of the viewer's file type.
pub const PROG_ID_FRIENDLY: &'static str = "Sh_Images Image Viewer";

/// The extensions associated with the viewer.
pub fn associated_extensions() -> (r: [&'static str; 9])
    ensures
        r == ASSOCIATED_EXTENSIONS,
{
    ASSOCIATED_EXTENSIONS
}


/// One registry value to write under the current user: the key (created
/// when missing), the value's name (empty for the default value) and data,
/// and the messages that introduce a failure to create the key or to set
/// the value.
pub struct RegistryWrite {
    pub key: String,
    pub name: String,
    pub value: String,
    pub key_error: String,
    pub value_error: String,
}

/// The text of a registry write: key, value name, data, and the two error
/// messages.
pub type WriteText = (Seq<char>, Seq<char>, Seq<char>, Seq<char>, Seq<char>);

/// A registry write as text.
pub open spec fn write_view(w: RegistryWrite) -> WriteText {
    (w.key@, w.name@, w.value@, w.key_error@, w.value_error@)
}

/// Registry writes as text.
pub open spec fn writes_view(ws: Seq<RegistryWrite>) -> Seq<WriteText> {
    ws.map_values(|w: RegistryWrite| write_view(w))
}

/// The key of the viewer's file type.
pub open spec fn prog_id_key() -> Seq<char> {
    "Software\\Classes\\"@ + PROG_ID@
}

/// The key of the viewer's capabilities, named after its executable.
pub open spec fn capabilities_key(exe_name: Seq<char>) -> Seq<char> {
    "Software\\"@ + exe_name + "\\Capabilities"@
}

/// The associated extensions as text.
pub open spec fn extensions() -> Seq<Seq<char>> {
    ASSOCIATED_EXTENSIONS@.map_values(|e: &str| e@)
}

/// The association of the extension `ext` with the viewer's file type.
pub open spec fn association_write(ext: Seq<char>) -> WriteText {
    (
        "Software\\Classes\\"@ + ext,
        ""@,
        PROG_ID@,
        "no se pudo crear asociaci\u{f3}n "@ + ext,
        "no se pudo establecer ProgId para "@ + ext,
    )
}

/// The file association of `ext` among the viewer's capabilities.
pub open spec fn capability_write(exe_name: Seq<char>, ext: Seq<char>) -> WriteText {
    (
        capabilities_key(exe_name) + "\\FileAssociations"@,
        ext,
        PROG_ID@,
        "no se pudo crear FileAssociations"@,
        "no se pudo asociar "@ + ext,
    )
}

/// The viewer's file type: its description, its open command and its icon.
pub open spec fn file_type_writes(exe_path: Seq<char>) -> Seq<WriteText> {
    seq![
        (
            prog_id_key(),
            ""@,
            PROG_ID_FRIENDLY@,
            "no se pudo crear ProgId"@,
            "no se pudo establecer descripci\u{f3}n"@,
        ),
        (
            prog_id_key() + "\\shell\\open\\command"@,
            ""@,
            "\""@ + exe_path + "\" \"%1\""@,
            "no se pudo crear clave de comando"@,
            "no se pudo establecer comando"@,
        ),
        (
            prog_id_key() + "\\DefaultIcon"@,
            ""@,
            "\""@ + exe_path + "\",0"@,
            "no se pudo crear clave de icono"@,
            "no se pudo establecer icono"@,
        ),
    ]
}

/// The application's name and description among its capabilities.
pub open spec fn capability_names(exe_name: Seq<char>) -> Seq<WriteText> {
    seq![
        (
            capabilities_key(exe_name),
            "ApplicationName"@,
            PROG_ID_FRIENDLY@,
            "no se pudo crear Capabilities"@,
            "no se pudo establecer ApplicationName"@,
        ),
        (
            capabilities_key(exe_name),
            "ApplicationDescription"@,
            "Visor de im\u{e1}genes r\u{e1}pido y ligero"@,
            "no se pudo crear Capabilities"@,
            "no se pudo establecer ApplicationDescription"@,
        ),
    ]
}

/// The registration of the capabilities among the system's applications.
pub open spec fn registered_application(exe_name: Seq<char>) -> WriteText {
    (
        "Software\\RegisteredApplications"@,
        exe_name,
        capabilities_key(exe_name),
        "no se pudo abrir RegisteredApplications"@,
        "no se pudo registrar aplicaci\u{f3}n"@,
    )
}

/// Every registry value that makes the executable at `exe_path` (whose file
/// name is `exe_name`) the default viewer of the associated extensions, in
/// order: its file type, the extensions' association with that type, and
/// the capabilities that the system's default-apps settings list.
pub open spec fn registration_writes(exe_path: Seq<char>, exe_name: Seq<char>) -> Seq<WriteText> {
    file_type_writes(exe_path) + extensions().map_values(|e: Seq<char>| association_write(e))
        + capability_names(exe_name) + extensions().map_values(
        |e: Seq<char>| capability_write(exe_name, e),
    ) + seq![registered_application(exe_name)]
}

/// The string `a` followed by `b`.
fn concat(a: &str, b: &str) -> (r: String)
    ensures
        r@ == a@ + b@,
{
    let mut r = String::from_str(a);
    push_str(&mut r, b);
    r
}

/// Appends the write of `value` named `name` under `key`.
fn push_write(
    plan: &mut Vec<RegistryWrite>,
    key: String,
    name: &str,
    value: String,
    key_error: String,
    value_error: String,
)
    ensures
        writes_view(final(plan)@) == writes_view(old(plan)@).push(
            (key@, name@, value@, key_error@, value_error@),
        ),
{
    plan.push(RegistryWrite { key, name: String::from_str(name), value, key_error, value_error });
    assert(writes_view(plan@) =~= writes_view(old(plan)@).push(
        (key@, name@, value@, key_error@, value_error@),
    ));
}

/// The registry values that make the executable at `exe_path`, whose file
/// name is `exe_name`, the default image viewer, in the order they are
/// written.
pub fn registration_plan(exe_path: &str, exe_name: &str) -> (r: Vec<RegistryWrite>)
    ensures
        writes_view(r@) == registration_writes(exe_path@, exe_name@),
{
    let mut plan: Vec<RegistryWrite> = Vec::new();
    let prog_key = concat("Software\\Classes\\", PROG_ID);
    push_write(
        &mut plan,
        prog_key.clone(),
        "",
        String::from_str(PROG_ID_FRIENDLY),
        String::from_str("no se pudo crear ProgId"),
        String::from_str("no se pudo establecer descripci\u{f3}n"),
    );
    let mut command = concat("\"", exe_path);
    push_str(&mut command, "\" \"%1\"");
    push_write(
        &mut plan,
        concat(prog_key.as_str(), "\\shell\\open\\command"),
        "",
        command,
        String::from_str("no se pudo crear clave de comando"),
        String::from_str("no se pudo establecer comando"),
    );
    let mut icon = concat("\"", exe_path);
    push_str(&mut icon, "\",0");
    push_write(
        &mut plan,
        concat(prog_key.as_str(), "\\DefaultIcon"),
        "",
        icon,
        String::from_str("no se pudo crear clave de icono"),
        String::from_str("no se pudo establecer icono"),
    );
    let ghost head = writes_view(plan@);
    assert(head =~= file_type_writes(exe_path@));
    let mut i: usize = 0;
    while i < 9
        invariant
            i <= 9,
            head == file_type_writes(exe_path@),
            writes_view(plan@) == head + extensions().take(i as int).map_values(
                |e: Seq<char>| association_write(e),
            ),
        decreases 9 - i,
    {
        let ext = ASSOCIATED_EXTENSIONS[i];
        assert(ext@ == extensions()[i as int]);
        push_write(
            &mut plan,
            concat("Software\\Classes\\", ext),
            "",
            String::from_str(PROG_ID),
            concat("no se pudo crear asociaci\u{f3}n ", ext),
            concat("no se pudo establecer ProgId para ", ext),
        );
        assert(extensions().take(i + 1).map_values(|e: Seq<char>| association_write(e))
            =~= extensions().take(i as int).map_values(|e: Seq<char>| association_write(e)).push(
            association_write(ext@),
        ));
        i = i + 1;
    }
    let mut cap = concat("Software\\", exe_name);
    push_str(&mut cap, "\\Capabilities");
    push_write(
        &mut plan,
        cap.clone(),
        "ApplicationName",
        String::from_str(PROG_ID_FRIENDLY),
        String::from_str("no se pudo crear Capabilities"),
        String::from_str("no se pudo establecer ApplicationName"),
    );
    push_write(
        &mut plan,
        cap.clone(),
        "ApplicationDescription",
        String::from_str("Visor de im\u{e1}genes r\u{e1}pido y ligero"),
        String::from_str("no se pudo crear Capabilities"),
        String::from_str("no se pudo establecer ApplicationDescription"),
    );
    let ghost mid = writes_view(plan@);
    assert(extensions().take(9) =~= extensions());
    assert(mid =~= head + extensions().map_values(|e: Seq<char>| association_write(e))
        + capability_names(exe_name@));
    let assoc_key = concat(cap.as_str(), "\\FileAssociations");
    let mut j: usize = 0;
    while j < 9
        invariant
            j <= 9,
            assoc_key@ == capabilities_key(exe_name@) + "\\FileAssociations"@,
            writes_view(plan@) == mid + extensions().take(j as int).map_values(
                |e: Seq<char>| capability_write(exe_name@, e),
            ),
        decreases 9 - j,
    {
        let ext = ASSOCIATED_EXTENSIONS[j];
        assert(ext@ == extensions()[j as int]);
        push_write(
            &mut plan,
            assoc_key.clone(),
            ext,
            String::from_str(PROG_ID),
            String::from_str("no se pudo crear FileAssociations"),
            concat("no se pudo asociar ", ext),
        );
        assert(extensions().take(j + 1).map_values(|e: Seq<char>| capability_write(exe_name@, e))
            =~= extensions().take(j as int).map_values(
            |e: Seq<char>| capability_write(exe_name@, e),
        ).push(capability_write(exe_name@, ext@)));
        j = j + 1;
    }
    push_write(
        &mut plan,
        String::from_str("Software\\RegisteredApplications"),
        exe_name,
        cap,
        String::from_str("no se pudo abrir RegisteredApplications"),
        String::from_str("no se pudo registrar aplicaci\u{f3}n"),
    );
    assert(writes_view(plan@) =~= registration_writes(exe_path@, exe_name@));
    plan
}

} // verus!
