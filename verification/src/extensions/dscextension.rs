use path_absolutize::Absolutize;
use vstd::prelude::*;
use vstd::string::{StrSliceExecFns, StringExecFns};

use crate::dscerror::DscError;
use crate::dscresources::command_resource::{split_lines, text_lines};
use crate::dscresources::dscresource::{copy_opt_text, copy_texts, opt_text_eq, string_views};
use crate::dscresources::resource_manifest::{ArgKind, DiscoverMethod};
use crate::json::{json_same, JsonValue};

verus! {

/// What an extension can do.
#[derive(Debug, Clone, Copy, PartialEq, Eq, Structural)]
pub enum Capability {
    Discover,
    Secret,
    Import,
}

impl Capability {
    /// The capability's name.
    pub open spec fn spec_name(self) -> Seq<char> {
        match self {
            Capability::Discover => "Discover"@,
            Capability::Secret => "Secret"@,
            Capability::Import => "Import"@,
        }
    }

    /// The capability's name.
    pub fn name(&self) -> (r: String)
        ensures
            r@ == self.spec_name(),
    {
        match self {
            Capability::Discover => String::from_str("Discover"),
            Capability::Secret => String::from_str("Secret"),
            Capability::Import => String::from_str("Import"),
        }
    }
}

/// An argument of an import command: a fixed string, or the file path
/// after an optional argument.
#[derive(Debug)]
pub enum ImportArgKind {
    String(String),
    File { file_arg: String },
}

/// The import command of an extension.
#[derive(Debug)]
pub struct ImportMethod {
    /// The file extensions it imports.
    pub file_extensions: Vec<String>,
    pub executable: String,
    pub args: Option<Vec<ImportArgKind>>,
}

/// An argument of a secret command: a fixed string, or the secret's name
/// or the vault's name after the given argument.
#[derive(Debug)]
pub enum SecretArgKind {
    String(String),
    Name { name_arg: String },
    Vault { vault_arg: String },
}

/// The secret command of an extension.
#[derive(Debug)]
pub struct SecretMethod {
    pub executable: String,
    pub args: Option<Vec<SecretArgKind>>,
}

/// The secret a secret command returns.
#[derive(Debug)]
pub struct SecretResult {
    pub secret: Option<String>,
}

/// The manifest of an extension.
#[derive(Debug)]
pub struct ExtensionManifest {
    pub schema_version: String,
    pub extension_type: String,
    pub version: String,
    pub description: Option<String>,
    pub tags: Option<Vec<String>>,
    pub discover: Option<DiscoverMethod>,
    pub import: Option<ImportMethod>,
    pub secret: Option<SecretMethod>,
    pub exit_codes: Option<Vec<(i32, String)>>,
}

/// An extension found on the system.
#[derive(Debug)]
pub struct DscExtension {
    pub extension_type: String,
    pub version: String,
    pub capabilities: Vec<Capability>,
    pub import_file_extensions: Option<Vec<String>>,
    pub path: String,
    pub description: Option<String>,
    pub directory: String,
    pub author: Option<String>,
    pub manifest: JsonValue,
}

/// Whether the list of file extensions is there and holds `ext`.
pub open spec fn lists_extension(exts: Option<Vec<String>>, ext: Seq<char>) -> bool {
    match exts {
        Some(v) => has_text(v@, ext),
        None => false,
    }
}

/// Whether one of the strings is `text`.
pub open spec fn has_text(v: Seq<String>, text: Seq<char>) -> bool {
    exists|i: int| 0 <= i < v.len() && (#[trigger] v[i])@ == text
}

/// Whether two optional lists of strings hold the same texts.
pub open spec fn opt_texts_eq(a: Option<Vec<String>>, b: Option<Vec<String>>) -> bool {
    match (a, b) {
        (Some(x), Some(y)) => string_views(x@) == string_views(y@),
        (None, None) => true,
        _ => false,
    }
}

/// Whether two extensions are the same.
pub open spec fn extension_same(a: DscExtension, b: DscExtension) -> bool {
    &&& a.extension_type@ == b.extension_type@
    &&& a.version@ == b.version@
    &&& a.capabilities@ == b.capabilities@
    &&& opt_texts_eq(a.import_file_extensions, b.import_file_extensions)
    &&& a.path@ == b.path@
    &&& opt_text_eq(a.description, b.description)
    &&& a.directory@ == b.directory@
    &&& opt_text_eq(a.author, b.author)
    &&& json_same(a.manifest, b.manifest)
}

fn copy_extension_capabilities(v: &Vec<Capability>) -> (r: Vec<Capability>)
    ensures
        r@ == v@,
{
    let mut out: Vec<Capability> = Vec::new();
    let mut i: usize = 0;
    while i < v.len()
        invariant
            i <= v@.len(),
            out@ == v@.take(i as int),
        decreases v@.len() - i,
    {
        out.push(v[i]);
        assert(v@.take(i + 1) =~= v@.take(i as int).push(v@[i as int]));
        i = i + 1;
    }
    assert(v@.take(v@.len() as int) =~= v@);
    out
}

impl DscExtension {
    /// A copy of the extension.
    pub fn deep_copy(&self) -> (r: DscExtension)
        ensures
            extension_same(r, *self),
    {
        DscExtension {
            extension_type: self.extension_type.clone(),
            version: self.version.clone(),
            capabilities: copy_extension_capabilities(&self.capabilities),
            import_file_extensions: match &self.import_file_extensions {
                Some(v) => Some(copy_texts(v)),
                None => None,
            },
            path: self.path.clone(),
            description: copy_opt_text(&self.description),
            directory: self.directory.clone(),
            author: copy_opt_text(&self.author),
            manifest: self.manifest.deep_copy(),
        }
    }

    /// An extension with nothing set.
    pub fn new() -> (r: Self)
        ensures
            r.extension_type@.len() == 0,
            r.version@.len() == 0,
            r.capabilities@.len() == 0,
            r.import_file_extensions is None,
            r.path@.len() == 0,
            r.description is None,
            r.directory@.len() == 0,
            r.author is None,
            r.manifest == JsonValue::Null,
    {
        DscExtension {
            extension_type: String::new(),
            version: String::new(),
            capabilities: Vec::new(),
            import_file_extensions: None,
            path: String::new(),
            description: None,
            directory: String::new(),
            author: None,
            manifest: JsonValue::Null,
        }
    }

    /// Whether the extension has the capability.
    pub fn has_capability(&self, capability: Capability) -> (r: bool)
        ensures
            r == self.capabilities@.contains(capability),
    {
        let mut i: usize = 0;
        while i < self.capabilities.len()
            invariant
                i <= self.capabilities@.len(),
                forall|k: int| 0 <= k < i ==> self.capabilities@[k] != capability,
            decreases self.capabilities@.len() - i,
        {
            if self.capabilities[i] == capability {
                return true;
            }
            i = i + 1;
        }
        false
    }

    /// An error unless the extension has the capability.
    pub fn require_capability(&self, capability: Capability) -> (r: Result<(), DscError>)
        ensures
            r is Ok <==> self.capabilities@.contains(capability),
            r matches Err(e) ==> e matches DscError::UnsupportedCapability(n, c) && n@ == self.extension_type@ && c@ == capability.spec_name(),
    {
        if self.has_capability(capability) {
            Ok(())
        } else {
            Err(DscError::UnsupportedCapability(self.extension_type.clone(), capability.name()))
        }
    }

    /// Whether the extension imports files with this extension: it must be
    /// able to import and list the file extension.
    pub fn imports_file_extension(&self, file_extension: &String) -> (r: bool)
        ensures
            r == (self.capabilities@.contains(Capability::Import) && lists_extension(self.import_file_extensions, file_extension@)),
    {
        if !self.has_capability(Capability::Import) {
            return false;
        }
        match &self.import_file_extensions {
            Some(exts) => {
                let mut i: usize = 0;
                while i < exts.len()
                    invariant
                        i <= exts@.len(),
                        self.capabilities@.contains(Capability::Import),
                        self.import_file_extensions == Some(*exts),
                        forall|k: int| 0 <= k < i ==> (#[trigger] exts@[k])@ != file_extension@,
                    decreases exts@.len() - i,
                {
                    if exts[i] == *file_extension {
                        assert(has_text(exts@, file_extension@));
                        return true;
                    }
                    i = i + 1;
                }
                false
            },
            None => false,
        }
    }
}

/// A command of an extension: its executable and its arguments.
#[derive(Debug)]
pub struct ExtensionCommand {
    pub executable: String,
    pub args: Option<Vec<String>>,
}

impl DscExtension {
    /// The command that imports `file`, whose file extension is
    /// `file_extension`, given what parsing the extension's manifest gave:
    /// an unsupported-capability error when the extension cannot import or
    /// its manifest has no import method, not-supported when it does not
    /// list the file extension, the manifest's error when it did not parse;
    /// else the manifest's executable, with its arguments for the path of
    /// `file` made absolute from the working directory `cwd`.
    pub fn import_command(&self, file: &str, cwd: &str, file_extension: &String, manifest: Result<ExtensionManifest, DscError>) -> (r: Result<ExtensionCommand, DscError>)
        requires
            rooted(cwd@),
        ensures
            !self.capabilities@.contains(Capability::Import) ==> (r matches Err(e) && e matches DscError::UnsupportedCapability(n, c)
                && n@ == self.extension_type@ && c@ == Capability::Import.spec_name()),
            self.capabilities@.contains(Capability::Import) && !lists_extension(self.import_file_extensions, file_extension@)
                ==> (r matches Err(e) && e is NotSupported),
            self.capabilities@.contains(Capability::Import) && lists_extension(self.import_file_extensions, file_extension@) ==> match manifest {
                Err(e) => r == Err::<ExtensionCommand, DscError>(e),
                Ok(m) => match m.import {
                    None => r matches Err(e) && e matches DscError::UnsupportedCapability(n, c)
                        && n@ == self.extension_type@ && c@ == Capability::Import.spec_name(),
                    Some(im) => r matches Ok(cmd) && cmd.executable@ == im.executable@ && match im.args {
                        None => cmd.args is None,
                        Some(a) => cmd.args matches Some(v) && string_views(v@) == import_args(a@, absolutized_from(file@, cwd@)),
                    },
                },
            },
    {
        if !self.has_capability(Capability::Import) {
            return Err(DscError::UnsupportedCapability(self.extension_type.clone(), Capability::Import.name()));
        }
        if !self.imports_file_extension(file_extension) {
            let mut m = String::from_str("Import of file '");
            m.append(file);
            m.append("' is not supported by extension '");
            m.append(self.extension_type.as_str());
            m.append("'");
            return Err(DscError::NotSupported(m));
        }
        let manifest = match manifest {
            Ok(m) => m,
            Err(e) => {
                return Err(e);
            },
        };
        let import = match manifest.import {
            Some(im) => im,
            None => {
                return Err(DscError::UnsupportedCapability(self.extension_type.clone(), Capability::Import.name()));
            },
        };
        let args = match process_import_args(import.args.as_ref(), file, cwd) {
            Ok(a) => a,
            Err(e) => {
                return Err(e);
            },
        };
        Ok(ExtensionCommand { executable: import.executable, args })
    }

    /// The command that lists the resources the extension discovers, given
    /// what parsing its manifest gave: an unsupported-capability error when
    /// the extension cannot discover or its manifest has no discover method,
    /// the manifest's error when it did not parse; else the discover
    /// method's executable and arguments.
    pub fn discover_command(&self, manifest: Result<ExtensionManifest, DscError>) -> (r: Result<ExtensionCommand, DscError>)
        ensures
            !self.capabilities@.contains(Capability::Discover) ==> (r matches Err(e) && e matches DscError::UnsupportedCapability(n, c)
                && n@ == self.extension_type@ && c@ == Capability::Discover.spec_name()),
            self.capabilities@.contains(Capability::Discover) ==> match manifest {
                Err(e) => r == Err::<ExtensionCommand, DscError>(e),
                Ok(m) => match m.discover {
                    None => r matches Err(e) && e matches DscError::UnsupportedCapability(n, c)
                        && n@ == self.extension_type@ && c@ == Capability::Discover.spec_name(),
                    Some(d) => r matches Ok(cmd) && cmd.executable == d.executable && cmd.args == d.args,
                },
            },
    {
        if !self.has_capability(Capability::Discover) {
            return Err(DscError::UnsupportedCapability(self.extension_type.clone(), Capability::Discover.name()));
        }
        let manifest = match manifest {
            Ok(m) => m,
            Err(e) => {
                return Err(e);
            },
        };
        match manifest.discover {
            Some(d) => Ok(ExtensionCommand { executable: d.executable, args: d.args }),
            None => Err(DscError::UnsupportedCapability(self.extension_type.clone(), Capability::Discover.name())),
        }
    }

    /// The manifest path in a line that the discover command printed, given
    /// what reading the line as a discover result gave (`None` when it is
    /// not one): a JSON error then, an extension error when the path is not
    /// absolute; else the path.
    pub fn discovered_manifest_path(&self, manifest_path: Option<String>) -> (r: Result<String, DscError>)
        ensures
            manifest_path is None ==> (r matches Err(e) && e is Json),
            manifest_path matches Some(p) ==> if rooted(p@) { r == Ok::<String, DscError>(p) } else { r matches Err(e) && e is Extension },
    {
        let p = match manifest_path {
            Some(p) => p,
            None => {
                return Err(DscError::Json(String::from_str("The discover result is not valid JSON")));
            },
        };
        if p.as_str().unicode_len() > 0 && p.as_str().get_char(0) == '/' {
            Ok(p)
        } else {
            let mut m = String::from_str("Extension '");
            m.append(self.extension_type.as_str());
            m.append("' returned a manifest path that is not absolute: ");
            m.append(p.as_str());
            Err(DscError::Extension(m))
        }
    }

    /// What an import gives once its command has run: its output, or an
    /// unsupported-capability error when it printed nothing.
    pub fn import_output(&self, stdout: String) -> (r: Result<String, DscError>)
        ensures
            stdout@.len() == 0 ==> (r matches Err(e) && e matches DscError::UnsupportedCapability(n, c)
                && n@ == self.extension_type@ && c@ == Capability::Import.spec_name()),
            stdout@.len() > 0 ==> (r matches Ok(s) && s@ == stdout@),
    {
        if stdout.as_str().unicode_len() == 0 {
            Err(DscError::UnsupportedCapability(self.extension_type.clone(), Capability::Import.name()))
        } else {
            Ok(stdout)
        }
    }
}

/// The arguments of a secret command: fixed strings as they are, the
/// secret's name after its argument, and the vault after its argument
/// when a vault is given.
pub open spec fn secret_args(args: Seq<SecretArgKind>, name: Seq<char>, vault: Option<Seq<char>>) -> Seq<Seq<char>>
    decreases args.len(),
{
    if args.len() == 0 {
        Seq::empty()
    } else {
        let prev = secret_args(args.drop_last(), name, vault);
        match args.last() {
            SecretArgKind::String(s) => prev.push(s@),
            SecretArgKind::Name { name_arg } => prev.push(name_arg@).push(name),
            SecretArgKind::Vault { vault_arg } => match vault {
                Some(v) => prev.push(vault_arg@).push(v),
                None => prev,
            },
        }
    }
}

/// The arguments of a secret command; `None` when it declares none.
pub fn process_secret_args(args: Option<&Vec<SecretArgKind>>, name: &str, vault: Option<&str>) -> (r: Option<Vec<String>>)
    ensures
        match (args, r) {
            (Some(a), Some(v)) => string_views(v@) == secret_args(a@, name@, match vault { Some(x) => Some(x@), None => None }),
            (None, None) => true,
            _ => false,
        },
{
    let arg_values = match args {
        Some(a) => a,
        None => {
            return None;
        },
    };
    let ghost vv: Option<Seq<char>> = match vault { Some(x) => Some(x@), None => None };
    let mut out: Vec<String> = Vec::new();
    let mut i: usize = 0;
    while i < arg_values.len()
        invariant
            i <= arg_values@.len(),
            vv == match vault { Some(x) => Some(x@), None => None::<Seq<char>> },
            string_views(out@) == secret_args(arg_values@.take(i as int), name@, vv),
        decreases arg_values@.len() - i,
    {
        proof {
            let t = arg_values@.take(i + 1);
            assert(t.drop_last() =~= arg_values@.take(i as int));
            assert(t.last() == arg_values@[i as int]);
        }
        let ghost before = out@;
        match &arg_values[i] {
            SecretArgKind::String(s) => {
                out.push(s.clone());
                assert(string_views(out@) =~= string_views(before).push(s@));
            },
            SecretArgKind::Name { name_arg } => {
                out.push(name_arg.clone());
                out.push(String::from_str(name));
                assert(string_views(out@) =~= string_views(before).push(name_arg@).push(name@));
            },
            SecretArgKind::Vault { vault_arg } => {
                if let Some(v) = vault {
                    out.push(vault_arg.clone());
                    out.push(String::from_str(v));
                    assert(string_views(out@) =~= string_views(before).push(vault_arg@).push(v@));
                }
            },
        }
        i = i + 1;
    }
    assert(arg_values@.take(arg_values@.len() as int) =~= arg_values@);
    Some(out)
}

/// The arguments of an import command given the file's absolute path:
/// fixed strings as they are, and the path after its argument, which is
/// left out when empty.
pub open spec fn import_args(args: Seq<ImportArgKind>, full_path: Seq<char>) -> Seq<Seq<char>>
    decreases args.len(),
{
    if args.len() == 0 {
        Seq::empty()
    } else {
        let prev = import_args(args.drop_last(), full_path);
        match args.last() {
            ImportArgKind::String(s) => prev.push(s@),
            ImportArgKind::File { file_arg } => if file_arg@.len() == 0 {
                prev.push(full_path)
            } else {
                prev.push(file_arg@).push(full_path)
            },
        }
    }
}

/// The arguments of an import command given the file's absolute path.
pub fn import_args_for_path(arg_values: &Vec<ImportArgKind>, full_path: &String) -> (r: Vec<String>)
    ensures
        string_views(r@) == import_args(arg_values@, full_path@),
{
    let mut out: Vec<String> = Vec::new();
    let mut i: usize = 0;
    while i < arg_values.len()
        invariant
            i <= arg_values@.len(),
            string_views(out@) == import_args(arg_values@.take(i as int), full_path@),
        decreases arg_values@.len() - i,
    {
        proof {
            let t = arg_values@.take(i + 1);
            assert(t.drop_last() =~= arg_values@.take(i as int));
            assert(t.last() == arg_values@[i as int]);
        }
        let ghost before = out@;
        match &arg_values[i] {
            ImportArgKind::String(s) => {
                out.push(s.clone());
                assert(string_views(out@) =~= string_views(before).push(s@));
            },
            ImportArgKind::File { file_arg } => {
                if file_arg.as_str().unicode_len() != 0 {
                    out.push(file_arg.clone());
                    out.push(full_path.clone());
                    assert(string_views(out@) =~= string_views(before).push(file_arg@).push(full_path@));
                } else {
                    out.push(full_path.clone());
                    assert(string_views(out@) =~= string_views(before).push(full_path@));
                }
            },
        }
        i = i + 1;
    }
    assert(arg_values@.take(arg_values@.len() as int) =~= arg_values@);
    out
}

/// Whether a directory is absolute in the Unix way: it starts at the root.
pub open spec fn rooted(dir: Seq<char>) -> bool {
    dir.len() > 0 && dir[0] == '/'
}

/// What `absolutize_from` of `path_absolutize` makes of `path` taken
/// relative to the directory `cwd`.
pub uninterp spec fn absolutized_from(path: Seq<char>, cwd: Seq<char>) -> Seq<char>;

/// `Path::absolutize_from` from `path_absolutize` (its Unix form): the
/// absolute form of `file` relative to the directory `cwd`, dots resolved.
/// Its source returns `Ok` on every branch, and with a rooted `cwd` the
/// list of path parts it joins is never empty (with an empty one it would
/// panic); the parts come from the two texts, so the result is text as it
/// was joined. The form of the result is left unsaid beyond its name.
#[verifier::external_body]
fn absolutize_from(file: &str, cwd: &str) -> (r: Option<String>)
    requires
        rooted(cwd@),
    ensures
        r is Some,
        r matches Some(p) ==> p@ == absolutized_from(file@, cwd@),
{
    match std::path::Path::new(file).absolutize_from(cwd) {
        Ok(p) => Some(p.to_string_lossy().to_string()),
        Err(_) => None,
    }
}

/// The arguments of an import command for a file, with the file's
/// absolute path taken from the working directory `cwd`; `None` when it
/// declares none.
pub fn process_import_args(args: Option<&Vec<ImportArgKind>>, file: &str, cwd: &str) -> (r: Result<Option<Vec<String>>, DscError>)
    requires
        rooted(cwd@),
    ensures
        args is None ==> r matches Ok(None),
        args matches Some(a) ==> (r matches Ok(Some(v)) && string_views(v@) == import_args(a@, absolutized_from(file@, cwd@))),
{
    let arg_values = match args {
        Some(a) => a,
        None => {
            return Ok(None);
        },
    };
    let full_path = match absolutize_from(file, cwd) {
        Some(p) => p,
        None => {
            let mut m = String::from_str("Failed to absolutize path ");
            m.append(file);
            return Err(DscError::Extension(m));
        },
    };
    let out = import_args_for_path(arg_values, &full_path);
    assert(string_views(out@) == import_args(arg_values@, full_path@));
    Ok(Some(out))
}

/// The secret a secret command printed: none when it printed nothing; an
/// error when it printed more than one line; else the output without its
/// final line endings.
pub open spec fn secret_output(stdout: Seq<char>) -> Option<Option<Seq<char>>> {
    if stdout.len() == 0 {
        Some(None)
    } else if text_lines(stdout).len() > 1 {
        None
    } else {
        Some(Some(trim_newlines(stdout)))
    }
}

/// The text without the `\n` characters at its end.
pub open spec fn trim_newlines(s: Seq<char>) -> Seq<char>
    decreases s.len(),
{
    if s.len() > 0 && s.last() == '\n' {
        trim_newlines(s.drop_last())
    } else {
        s
    }
}

/// The secret a secret command of `extension` printed.
pub fn secret_from_output(extension: &String, stdout: &String) -> (r: Result<Option<String>, DscError>)
    ensures
        match (r, secret_output(stdout@)) {
            (Ok(None), Some(None)) => true,
            (Ok(Some(s)), Some(Some(t))) => s@ == t,
            (Err(e), None) => e is NotSupported,
            _ => false,
        },
{
    let n = stdout.as_str().unicode_len();
    if n == 0 {
        return Ok(None);
    }
    let lines = split_lines(stdout.as_str());
    if lines.len() > 1 {
        let mut m = String::from_str("Extension '");
        m.append(extension.as_str());
        m.append("' returned multiple lines for the secret");
        return Err(DscError::NotSupported(m));
    }
    let mut end: usize = n;
    assert(stdout@.subrange(0, n as int) =~= stdout@);
    while end > 0 && stdout.as_str().get_char(end - 1) == '\n'
        invariant
            n == stdout@.len(),
            end <= n,
            trim_newlines(stdout@) == trim_newlines(stdout@.subrange(0, end as int)),
        decreases end,
    {
        assert(stdout@.subrange(0, end as int).drop_last() =~= stdout@.subrange(0, end - 1));
        end = end - 1;
    }
    let s = stdout.as_str().substring_char(0, end);
    assert(s@ == trim_newlines(stdout@)) by {
        assert(stdout@.subrange(0, n as int) =~= stdout@);
    }
    Ok(Some(String::from_str(s)))
}

} // verus!
