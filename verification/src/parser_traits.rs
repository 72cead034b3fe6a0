use vstd::prelude::*;

use crate::expression_parser::Value;
use crate::parser::program_structure::{Container, Table};
use crate::resources::ResourceLoc;

verus! {

/// The locations of the resources that a program declares; no location is
/// held twice.
#[derive(Debug)]
pub struct ProgramResources {
    pub resources: Vec<ResourceLoc>,
}

impl View for ProgramResources {
    type V = Set<Seq<Seq<char>>>;

    /// The locations that are held.
    open spec fn view(&self) -> Set<Seq<Seq<char>>> {
        Set::new(
            |loc: Seq<Seq<char>>|
                exists|i: int| 0 <= i < self.resources@.len() && self.resources@[i]@ == loc,
        )
    }
}

impl ProgramResources {
    /// No locations.
    pub fn new() -> (r: ProgramResources)
        ensures
            r@ == Set::<Seq<Seq<char>>>::empty(),
    {
        let r = ProgramResources { resources: Vec::new() };
        assert(r@ =~= Set::<Seq<Seq<char>>>::empty());
        r
    }

    /// Whether `loc` is held.
    pub fn contains(&self, loc: &ResourceLoc) -> (r: bool)
        ensures
            r == self@.contains(loc@),
    {
        let mut i: usize = 0;
        while i < self.resources.len()
            invariant
                i <= self.resources.len(),
                forall|k: int| 0 <= k < i ==> self.resources@[k]@ != loc@,
            decreases self.resources.len() - i,
        {
            if self.resources[i] == *loc {
                return true;
            }
            i += 1;
        }
        false
    }

    /// Takes `loc` in, unless it is held already; says whether it was new.
    pub fn insert(&mut self, loc: ResourceLoc) -> (r: bool)
        ensures
            r == !old(self)@.contains(loc@),
            final(self)@ == old(self)@.insert(loc@),
    {
        if self.contains(&loc) {
            assert(self@ =~= self@.insert(loc@));
            false
        } else {
            let ghost before = self.resources@;
            self.resources.push(loc);
            proof {
                assert forall|p: Seq<Seq<char>>| self@.contains(p) == old(self)@.insert(
                    loc@,
                ).contains(p) by {
                    if old(self)@.insert(loc@).contains(p) {
                        if p == loc@ {
                            assert(self.resources@[before.len() as int]@ == p);
                        } else {
                            let i = choose|i: int| 0 <= i < before.len() && before[i]@ == p;
                            assert(self.resources@[i]@ == p);
                        }
                    }
                    if self@.contains(p) {
                        let i = choose|i: int|
                            0 <= i < self.resources@.len() && self.resources@[i]@ == p;
                        if i < before.len() {
                            assert(before[i]@ == p);
                        }
                    }
                }
                assert(self@ =~= old(self)@.insert(loc@));
            }
            true
        }
    }
}

/// A variable of either kind.
#[derive(Debug)]
pub enum Variable {
    GlobalVariable(GlobalVariable),
    LocalVariable(LocalVariable),
}

/// The kind of a declared type.
#[derive(Debug)]
pub enum DataType {
    Struct(),
    Enum(),
}

/// What a package or a directory holds under a name.
#[derive(Debug)]
pub enum ResourceHolder {
    Dir(Dir),
    FireFile(FireFile),
}

/// A function with a body or without.
#[derive(Debug)]
pub enum Function {
    ConcreteFunction(ConcreteFunction),
    AbstractFunction(AbstractFunction),
}

/// A declaration at the top level of a source file.
#[derive(Debug)]
pub enum TopLevelResource {
    ConcreteFunction(ConcreteFunction),
    AbstractFunction(AbstractFunction),
    Process(Process),
    GlobalVariable(GlobalVariable),
    Struct(Struct),
    Enum(Enum),
    Trait(Trait),
}

/// A package: directories and source files by their names.
#[derive(Debug)]
pub struct Package(pub Table<ResourceHolder>);

/// A directory: directories and source files by their names.
#[derive(Debug)]
pub struct Dir(pub Table<ResourceHolder>);

/// A source file: its declarations by their names.
#[derive(Debug)]
pub struct FireFile(pub Table<TopLevelResource>);

/// A function with a body.
#[derive(Debug)]
pub struct ConcreteFunction {
    pub annotations: Vec<Annotation>,
    pub parameters: Vec<LocalVariable>,
    pub return_type: DataType,
    pub code: CodeBlock,
}

/// The signature of a function, as a trait declares it.
#[derive(Debug)]
pub struct AbstractFunction {
    pub annotations: Vec<Annotation>,
    pub parameters: Vec<LocalVariable>,
    pub return_type: DataType,
}

/// A handler of an event; it hands nothing back.
#[derive(Debug)]
pub struct Process {
    pub annotations: Vec<Annotation>,
    pub parameters: Vec<LocalVariable>,
    pub code: CodeBlock,
}

#[derive(Debug)]
pub struct GlobalVariable {
    pub annotations: Vec<Annotation>,
    pub var_type: DataType,
}

#[derive(Debug)]
pub struct LocalVariable {
    pub name: String,
    pub var_type: DataType,
}

#[derive(Debug)]
pub struct Struct {
    pub annotations: Vec<Annotation>,
    pub properties: Table<LocalVariable>,
    pub traits: Vec<Trait>,
    pub methods: Table<ConcreteFunction>,
}

#[derive(Debug)]
pub struct Enum {
    pub annotations: Vec<Annotation>,
    pub fields: Table<GlobalVariable>,
}

#[derive(Debug)]
pub struct Trait {
    pub annotations: Vec<Annotation>,
    pub supertraits: Vec<Trait>,
    pub methods: Table<Function>,
}

/// The statements of a body, in order.
#[derive(Debug)]
pub struct CodeBlock(pub Vec<Statement>);

#[derive(Debug)]
pub enum Statement {
    Assignment(Variable, Value),
    Break,
    Continue,
    Raise(Value),
    Return(Value),
    If { expr: Value, block: CodeBlock, otherwise: Option<CodeBlock> },
    While { expr: Value, block: CodeBlock },
    For { var: LocalVariable, val: Value, block: CodeBlock },
}

/// A note for the compiler on the declaration that follows it.
#[derive(Debug)]
pub struct Annotation {
    pub name: String,
    pub params: Vec<Value>,
}

impl Container<ResourceHolder> for Package {
    open spec fn wf(&self) -> bool {
        self.0.wf()
    }

    open spec fn inner(&self) -> Map<Seq<char>, ResourceHolder> {
        self.0.members()
    }

    fn get_inner(&self, s: &String) -> (r: Option<&ResourceHolder>) {
        self.0.get(s)
    }
}

impl Container<ResourceHolder> for Dir {
    open spec fn wf(&self) -> bool {
        self.0.wf()
    }

    open spec fn inner(&self) -> Map<Seq<char>, ResourceHolder> {
        self.0.members()
    }

    fn get_inner(&self, s: &String) -> (r: Option<&ResourceHolder>) {
        self.0.get(s)
    }
}

impl Container<TopLevelResource> for FireFile {
    open spec fn wf(&self) -> bool {
        self.0.wf()
    }

    open spec fn inner(&self) -> Map<Seq<char>, TopLevelResource> {
        self.0.members()
    }

    fn get_inner(&self, s: &String) -> (r: Option<&TopLevelResource>) {
        self.0.get(s)
    }
}

/// The methods of a struct by their names.
impl Container<ConcreteFunction> for Struct {
    open spec fn wf(&self) -> bool {
        self.methods.wf()
    }

    open spec fn inner(&self) -> Map<Seq<char>, ConcreteFunction> {
        self.methods.members()
    }

    fn get_inner(&self, s: &String) -> (r: Option<&ConcreteFunction>) {
        self.methods.get(s)
    }
}

/// The properties of a struct by their names.
impl Container<LocalVariable> for Struct {
    open spec fn wf(&self) -> bool {
        self.properties.wf()
    }

    open spec fn inner(&self) -> Map<Seq<char>, LocalVariable> {
        self.properties.members()
    }

    fn get_inner(&self, s: &String) -> (r: Option<&LocalVariable>) {
        self.properties.get(s)
    }
}

impl Container<Function> for Trait {
    open spec fn wf(&self) -> bool {
        self.methods.wf()
    }

    open spec fn inner(&self) -> Map<Seq<char>, Function> {
        self.methods.members()
    }

    fn get_inner(&self, s: &String) -> (r: Option<&Function>) {
        self.methods.get(s)
    }
}

impl Container<GlobalVariable> for Enum {
    open spec fn wf(&self) -> bool {
        self.fields.wf()
    }

    open spec fn inner(&self) -> Map<Seq<char>, GlobalVariable> {
        self.fields.members()
    }

    fn get_inner(&self, s: &String) -> (r: Option<&GlobalVariable>) {
        self.fields.get(s)
    }
}

} // verus!
