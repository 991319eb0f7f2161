//! The resources that packaging rules yield, and the forms in which they
//! are kept.

use vstd::prelude::*;
use crate::name_map::name_views;
use crate::name_map::NameMap;

verus! {

/// A native extension module that the Python distribution ships.
#[derive(Debug, Clone, PartialEq, Eq)]
pub struct ExtensionModule {
    /// The name of the module.
    pub module: String,
    /// The name of its initialisation function, if it has one.
    pub init_fn: Option<String>,
    /// Whether the distribution's own build has it built in.
    pub builtin_default: bool,
    /// Whether it can be left out of a build.
    pub disableable: bool,
    /// Whether the interpreter cannot start without it.
    pub required: bool,
    /// Which variant of the module this is.
    pub variant: String,
}

/// What an `ExtensionModule` holds.
pub struct ExtensionModuleView {
    pub module: Seq<char>,
    pub init_fn: Option<Seq<char>>,
    pub builtin_default: bool,
    pub disableable: bool,
    pub required: bool,
    pub variant: Seq<char>,
}

impl ExtensionModuleView {
    /// Whether every build has to hold this module.
    pub open spec fn is_always_needed(self) -> bool {
        self.builtin_default || self.required
    }
}

impl View for ExtensionModule {
    type V = ExtensionModuleView;

    open spec fn view(&self) -> ExtensionModuleView {
        ExtensionModuleView {
            module: self.module@,
            init_fn: match self.init_fn {
                Some(name) => Some(name@),
                None => None,
            },
            builtin_default: self.builtin_default,
            disableable: self.disableable,
            required: self.required,
            variant: self.variant@,
        }
    }
}

impl ExtensionModule {
    /// Whether every build has to hold this module.
    pub fn is_always_needed(&self) -> (b: bool)
        ensures
            b == self@.is_always_needed(),
    {
        self.builtin_default || self.required
    }

    /// Another value with the same fields.
    pub fn duplicate(&self) -> (copy: Self)
        ensures
            copy == *self,
            copy@ == self@,
    {
        let init_fn = match &self.init_fn {
            Some(name) => Some(name.clone()),
            None => None,
        };
        ExtensionModule {
            module: self.module.clone(),
            init_fn,
            builtin_default: self.builtin_default,
            disableable: self.disableable,
            required: self.required,
            variant: self.variant.clone(),
        }
    }
}

/// A native extension module that a packaging rule has built.
#[derive(Debug, Clone, PartialEq, Eq)]
pub struct BuiltExtensionModule {
    /// The name of the module.
    pub name: String,
    /// The name of its initialisation function.
    pub init_fn: String,
    /// The object files that make it up.
    pub object_file_data: Vec<Vec<u8>>,
    /// Whether the module is a package.
    pub is_package: bool,
    /// The libraries that it links against.
    pub libraries: Vec<String>,
}

/// What a `BuiltExtensionModule` holds.
pub struct BuiltExtensionModuleView {
    pub name: Seq<char>,
    pub init_fn: Seq<char>,
    pub object_file_data: Seq<Seq<u8>>,
    pub is_package: bool,
    pub libraries: Seq<Seq<char>>,
}

impl View for BuiltExtensionModule {
    type V = BuiltExtensionModuleView;

    open spec fn view(&self) -> BuiltExtensionModuleView {
        BuiltExtensionModuleView {
            name: self.name@,
            init_fn: self.init_fn@,
            object_file_data: Seq::new(
                self.object_file_data@.len(),
                |i: int| self.object_file_data@[i]@,
            ),
            is_package: self.is_package,
            libraries: name_views(self.libraries@),
        }
    }
}

/// How far the bytecode compiler optimises.
#[derive(Debug, Clone, Copy, PartialEq, Eq)]
pub enum BytecodeOptimizationLevel {
    Zero,
    One,
    Two,
}

impl BytecodeOptimizationLevel {
    /// The number that the compiler knows the level by.
    pub open spec fn spec_number(self) -> int {
        match self {
            BytecodeOptimizationLevel::Zero => 0,
            BytecodeOptimizationLevel::One => 1,
            BytecodeOptimizationLevel::Two => 2,
        }
    }

    /// The number that the compiler knows the level by.
    pub fn number(&self) -> (n: i32)
        ensures
            n == self.spec_number(),
    {
        match self {
            BytecodeOptimizationLevel::Zero => 0,
            BytecodeOptimizationLevel::One => 1,
            BytecodeOptimizationLevel::Two => 2,
        }
    }

    /// The level that a number stands for, if it stands for one.
    pub fn from_number(n: i32) -> (level: Option<Self>)
        ensures
            level is Some <==> 0 <= n <= 2,
            level is Some ==> level->0.spec_number() == n,
    {
        if n == 0 {
            Some(BytecodeOptimizationLevel::Zero)
        } else if n == 1 {
            Some(BytecodeOptimizationLevel::One)
        } else if n == 2 {
            Some(BytecodeOptimizationLevel::Two)
        } else {
            None
        }
    }
}

/// What a packaging rule yields.
#[derive(Debug, Clone, PartialEq, Eq)]
pub enum PythonResource {
    /// An extension module of the distribution.
    ExtensionModule { name: String, module: ExtensionModule },
    /// The source of a Python module.
    ModuleSource { name: String, source: Vec<u8>, is_package: bool },
    /// A request to compile the source of a Python module.
    ModuleBytecodeRequest {
        name: String,
        source: Vec<u8>,
        optimize_level: BytecodeOptimizationLevel,
        is_package: bool,
    },
    /// The compiled bytecode of a Python module.
    ModuleBytecode {
        name: String,
        bytecode: Vec<u8>,
        optimize_level: BytecodeOptimizationLevel,
        is_package: bool,
    },
    /// A data file that belongs to a package.
    Resource { package: String, name: String, data: Vec<u8> },
    /// An extension module that a rule has built.
    BuiltExtensionModule(BuiltExtensionModule),
}

/// The kinds of resource, without what they hold.
#[derive(Debug, Clone, Copy, PartialEq, Eq)]
pub enum ResourceKind {
    ExtensionModule,
    ModuleSource,
    ModuleBytecodeRequest,
    ModuleBytecode,
    Resource,
    BuiltExtensionModule,
}

impl PythonResource {
    /// The kind of the resource.
    pub open spec fn spec_kind(self) -> ResourceKind {
        match self {
            PythonResource::ExtensionModule { .. } => ResourceKind::ExtensionModule,
            PythonResource::ModuleSource { .. } => ResourceKind::ModuleSource,
            PythonResource::ModuleBytecodeRequest { .. } => ResourceKind::ModuleBytecodeRequest,
            PythonResource::ModuleBytecode { .. } => ResourceKind::ModuleBytecode,
            PythonResource::Resource { .. } => ResourceKind::Resource,
            PythonResource::BuiltExtensionModule(_) => ResourceKind::BuiltExtensionModule,
        }
    }

    /// The kind of the resource.
    pub fn kind(&self) -> (kind: ResourceKind)
        ensures
            kind == self.spec_kind(),
    {
        match self {
            PythonResource::ExtensionModule { .. } => ResourceKind::ExtensionModule,
            PythonResource::ModuleSource { .. } => ResourceKind::ModuleSource,
            PythonResource::ModuleBytecodeRequest { .. } => ResourceKind::ModuleBytecodeRequest,
            PythonResource::ModuleBytecode { .. } => ResourceKind::ModuleBytecode,
            PythonResource::Resource { .. } => ResourceKind::Resource,
            PythonResource::BuiltExtensionModule(_) => ResourceKind::BuiltExtensionModule,
        }
    }
}

/// What is to be done with a resource.
#[derive(Debug, Clone, Copy, PartialEq, Eq)]
pub enum ResourceAction {
    Add,
    Remove,
}

/// Where a resource is to go.
#[derive(Debug, Clone, PartialEq, Eq)]
pub enum ResourceLocation {
    /// Into the binary.
    Embedded,
    /// Into a directory beside the binary.
    AppRelative { path: String },
}

/// The two sinks, without the directory.
#[derive(Debug, Clone, Copy, PartialEq, Eq)]
pub enum LocationKind {
    Embedded,
    AppRelative,
}

impl ResourceLocation {
    /// The sink of the location.
    pub open spec fn spec_kind(self) -> LocationKind {
        match self {
            ResourceLocation::Embedded => LocationKind::Embedded,
            ResourceLocation::AppRelative { .. } => LocationKind::AppRelative,
        }
    }

    /// The sink of the location.
    pub fn kind(&self) -> (kind: LocationKind)
        ensures
            kind == self.spec_kind(),
    {
        match self {
            ResourceLocation::Embedded => LocationKind::Embedded,
            ResourceLocation::AppRelative { .. } => LocationKind::AppRelative,
        }
    }
}

/// One step that a packaging rule asks for.
#[derive(Debug, Clone, PartialEq, Eq)]
pub struct PythonResourceAction {
    pub action: ResourceAction,
    pub location: ResourceLocation,
    pub resource: PythonResource,
}

/// The source of a module, as it is packaged.
#[derive(Debug, Clone, PartialEq, Eq)]
pub struct PackagedModuleSource {
    pub source: Vec<u8>,
    pub is_package: bool,
}

/// What a `PackagedModuleSource` holds.
pub struct PackagedModuleSourceView {
    pub source: Seq<u8>,
    pub is_package: bool,
}

impl View for PackagedModuleSource {
    type V = PackagedModuleSourceView;

    open spec fn view(&self) -> PackagedModuleSourceView {
        PackagedModuleSourceView { source: self.source@, is_package: self.is_package }
    }
}

/// The bytecode of a module, as it is packaged.
#[derive(Debug, Clone, PartialEq, Eq)]
pub struct PackagedModuleBytecode {
    pub bytecode: Vec<u8>,
    pub is_package: bool,
}

/// What a `PackagedModuleBytecode` holds.
pub struct PackagedModuleBytecodeView {
    pub bytecode: Seq<u8>,
    pub is_package: bool,
}

impl View for PackagedModuleBytecode {
    type V = PackagedModuleBytecodeView;

    open spec fn view(&self) -> PackagedModuleBytecodeView {
        PackagedModuleBytecodeView { bytecode: self.bytecode@, is_package: self.is_package }
    }
}

/// A module whose source is still to be compiled.
#[derive(Debug, Clone, PartialEq, Eq)]
pub struct BytecodeRequest {
    pub source: Vec<u8>,
    pub optimize_level: BytecodeOptimizationLevel,
    pub is_package: bool,
}

/// What a `BytecodeRequest` holds.
pub struct BytecodeRequestView {
    pub source: Seq<u8>,
    pub optimize_level: BytecodeOptimizationLevel,
    pub is_package: bool,
}

impl View for BytecodeRequest {
    type V = BytecodeRequestView;

    open spec fn view(&self) -> BytecodeRequestView {
        BytecodeRequestView {
            source: self.source@,
            optimize_level: self.optimize_level,
            is_package: self.is_package,
        }
    }
}

/// The data files of packages: package, then file name, then content.
pub type ResourceTree = Map<Seq<char>, Map<Seq<char>, Seq<u8>>>;

/// What is installed in one directory beside the binary.
#[derive(Debug, PartialEq, Eq)]
pub struct AppRelativeResources {
    pub module_sources: NameMap<PackagedModuleSource>,
    pub module_bytecodes: NameMap<PackagedModuleBytecode>,
    pub resources: NameMap<NameMap<Vec<u8>>>,
}

/// What an `AppRelativeResources` holds.
pub struct AppRelativeView {
    pub module_sources: Map<Seq<char>, PackagedModuleSourceView>,
    pub module_bytecodes: Map<Seq<char>, PackagedModuleBytecodeView>,
    pub resources: ResourceTree,
}

impl AppRelativeView {
    /// A directory with nothing in it.
    pub open spec fn empty() -> AppRelativeView {
        AppRelativeView {
            module_sources: Map::empty(),
            module_bytecodes: Map::empty(),
            resources: Map::empty(),
        }
    }
}

impl View for AppRelativeResources {
    type V = AppRelativeView;

    open spec fn view(&self) -> AppRelativeView {
        AppRelativeView {
            module_sources: self.module_sources@,
            module_bytecodes: self.module_bytecodes@,
            resources: self.resources@,
        }
    }
}

impl AppRelativeResources {
    /// A directory with nothing in it.
    pub fn new() -> (r: Self)
        ensures
            r@ == AppRelativeView::empty(),
    {
        let r = AppRelativeResources {
            module_sources: NameMap::new(),
            module_bytecodes: NameMap::new(),
            resources: NameMap::new(),
        };
        r
    }
}

} // verus!
