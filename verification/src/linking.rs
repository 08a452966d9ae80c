//! The bridge on a runtime's own objects: what a compiled module imports, and
//! the import object that it is instantiated with.
use crate::abi::{
    import_pairs, imports_use_bridge, uses_bridge, HostImport, ImportName, NAMESPACE,
};
use vstd::prelude::*;

verus! {

/// A compiled module, carried through unread.
#[verifier::external_type_specification]
#[verifier::external_body]
pub struct ExModule(wasmer::Module);

/// An import object.
#[verifier::external_type_specification]
#[verifier::external_body]
pub struct ExImports(wasmer::Imports);

/// A host function, or anything else that can be imported, carried through
/// unread.
#[verifier::external_type_specification]
#[verifier::external_body]
pub struct ExExtern(wasmer::Extern);

/// The imports that a module declares: module and field name of each, in the
/// order of its import section.
pub uninterp spec fn module_imports(module: wasmer::Module) -> Seq<(Seq<char>, Seq<char>)>;

/// `wasmer::Module::imports`: the imports that the module declares, in order.
/// Their types are left out.
#[verifier::external_body]
fn list_imports(module: &wasmer::Module) -> (names: Vec<ImportName>)
    ensures
        import_pairs(names@) == module_imports(*module),
{
    module
        .imports()
        .map(|import| ImportName {
            module: import.module().to_string(),
            name: import.name().to_string(),
        })
        .collect()
}

/// What an import object defines, by module and field name.
pub uninterp spec fn definitions(imports: wasmer::Imports) -> Map<
    (Seq<char>, Seq<char>),
    wasmer::Extern,
>;

/// `wasmer::Imports::get_export`: it finds something just where the object
/// defines that name.
#[verifier::external_body]
fn is_defined(imports: &wasmer::Imports, module: &str, name: &str) -> (found: bool)
    ensures
        found == definitions(*imports).contains_key((module@, name@)),
{
    imports.get_export(module, name).is_some()
}

/// `wasmer::Imports::define`: the name then stands for the value, and every
/// other definition stays.
#[verifier::external_body]
fn define(imports: &mut wasmer::Imports, module: &str, name: &str, value: wasmer::Extern)
    ensures
        definitions(*final(imports)) == definitions(*old(imports)).insert((module@, name@), value),
{
    imports.define(module, name, value)
}

/// True when `module` imports anything from the bridge namespace.
pub fn module_uses_bridge(module: &wasmer::Module) -> (uses: bool)
    ensures
        uses == uses_bridge(module_imports(*module)),
{
    imports_use_bridge(&list_imports(module))
}

/// The host functions of one guest instance.
pub struct HostFunctions {
    pub buffer_upload: wasmer::Extern,
    pub buffer_read: wasmer::Extern,
    pub buffer_write: wasmer::Extern,
    pub buffer_release: wasmer::Extern,
    pub pipeline_create: wasmer::Extern,
    pub pipeline_dispatch: wasmer::Extern,
    pub pipeline_release: wasmer::Extern,
}

impl HostFunctions {
    /// The function behind an import.
    pub open spec fn of(self, import: HostImport) -> wasmer::Extern {
        match import {
            HostImport::BufferUpload => self.buffer_upload,
            HostImport::BufferRead => self.buffer_read,
            HostImport::BufferWrite => self.buffer_write,
            HostImport::BufferRelease => self.buffer_release,
            HostImport::PipelineCreate => self.pipeline_create,
            HostImport::PipelineDispatch => self.pipeline_dispatch,
            HostImport::PipelineRelease => self.pipeline_release,
        }
    }
}

/// The full name of a bridge import.
pub open spec fn import_key(import: HostImport) -> (Seq<char>, Seq<char>) {
    (NAMESPACE@, import.spec_name())
}

/// No two bridge imports have the same name.
pub proof fn law_import_names_are_distinct(a: HostImport, b: HostImport)
    ensures
        import_key(a) == import_key(b) ==> a == b,
{
    reveal_strlit("buffer_upload");
    reveal_strlit("buffer_read");
    reveal_strlit("buffer_write");
    reveal_strlit("buffer_release");
    reveal_strlit("pipeline_create");
    reveal_strlit("pipeline_dispatch");
    reveal_strlit("pipeline_release");
    assert(a.spec_name().len() == b.spec_name().len() ==> a == b);
}

/// Defines one import, unless there is a definition of that name already.
fn define_missing(imports: &mut wasmer::Imports, import: HostImport, function: wasmer::Extern)
    ensures
        definitions(*final(imports)) == if definitions(*old(imports)).contains_key(
            import_key(import),
        ) {
            definitions(*old(imports))
        } else {
            definitions(*old(imports)).insert(import_key(import), function)
        },
{
    let name = import.name();
    if !is_defined(imports, NAMESPACE, name) {
        define(imports, NAMESPACE, name, function);
    }
}

/// Registers the bridge imports into `imports`, leaving any entry that is
/// already present untouched.
pub fn register_imports(functions: HostFunctions, imports: &mut wasmer::Imports)
    ensures
        forall|key: (Seq<char>, Seq<char>)|
            #![trigger definitions(*final(imports)).contains_key(key)]
            definitions(*final(imports)).contains_key(key) <==> definitions(
                *old(imports),
            ).contains_key(key) || exists|import: HostImport| key == #[trigger] import_key(import),
        forall|key: (Seq<char>, Seq<char>)|
            #![trigger definitions(*final(imports))[key]]
            definitions(*old(imports)).contains_key(key) ==> definitions(*final(imports))[key]
                == definitions(*old(imports))[key],
        forall|import: HostImport|
            !definitions(*old(imports)).contains_key(#[trigger] import_key(import))
                ==> definitions(*final(imports))[import_key(import)] == functions.of(import),
{
    proof {
        assert forall|a: HostImport, b: HostImport|
            #[trigger] import_key(a) == #[trigger] import_key(b) implies a == b by {
            law_import_names_are_distinct(a, b);
        }
    }
    define_missing(imports, HostImport::BufferUpload, functions.buffer_upload);
    define_missing(imports, HostImport::BufferRead, functions.buffer_read);
    define_missing(imports, HostImport::BufferWrite, functions.buffer_write);
    define_missing(imports, HostImport::BufferRelease, functions.buffer_release);
    define_missing(imports, HostImport::PipelineCreate, functions.pipeline_create);
    define_missing(imports, HostImport::PipelineDispatch, functions.pipeline_dispatch);
    define_missing(imports, HostImport::PipelineRelease, functions.pipeline_release);
}

} // verus!
