//! The metadata schema: which column of a table plays which role for the
//! optimizer.

use crate::error::Role;
use vstd::prelude::*;

verus! {

/// The two kinds of table in a graph.
#[derive(Clone, Copy, Debug, PartialEq, Eq, Structural)]
pub enum GraphDataType {
    Edge,
    Node,
}

/// The name of the column of every role.
#[derive(Debug, PartialEq, Eq, PartialOrd, Ord, Hash)]
pub struct GraphMetadata {
    pub capacity: String,
    pub flow: String,
    pub function: String,
    pub name: String,
    pub sink: String,
    pub src: String,
    pub supply: String,
    pub unit_cost: String,
}

/// A mapping of every role as a mathematical value.
pub ghost struct GraphMetadataView {
    pub capacity: Seq<char>,
    pub flow: Seq<char>,
    pub function: Seq<char>,
    pub name: Seq<char>,
    pub sink: Seq<char>,
    pub src: Seq<char>,
    pub supply: Seq<char>,
    pub unit_cost: Seq<char>,
}

impl View for GraphMetadata {
    type V = GraphMetadataView;

    open spec fn view(&self) -> GraphMetadataView {
        GraphMetadataView {
            capacity: self.capacity@,
            flow: self.flow@,
            function: self.function@,
            name: self.name@,
            sink: self.sink@,
            src: self.src@,
            supply: self.supply@,
            unit_cost: self.unit_cost@,
        }
    }
}

/// The column that a mapping gives a role.
pub open spec fn column_of(m: GraphMetadataView, role: Role) -> Seq<char> {
    match role {
        Role::Capacity => m.capacity,
        Role::Flow => m.flow,
        Role::Function => m.function,
        Role::Name => m.name,
        Role::Sink => m.sink,
        Role::Src => m.src,
        Role::Supply => m.supply,
        Role::UnitCost => m.unit_cost,
    }
}

/// The name that a role has where nothing else is declared.
pub open spec fn standard_name(role: Role) -> Seq<char> {
    match role {
        Role::Capacity => "capacity"@,
        Role::Flow => "flow"@,
        Role::Function => "function"@,
        Role::Name => "name"@,
        Role::Sink => "sink"@,
        Role::Src => "src"@,
        Role::Supply => "supply"@,
        Role::UnitCost => "unit_cost"@,
    }
}

/// The mapping that gives every role its standard name.
pub open spec fn standard_metadata() -> GraphMetadataView {
    GraphMetadataView {
        capacity: standard_name(Role::Capacity),
        flow: standard_name(Role::Flow),
        function: standard_name(Role::Function),
        name: standard_name(Role::Name),
        sink: standard_name(Role::Sink),
        src: standard_name(Role::Src),
        supply: standard_name(Role::Supply),
        unit_cost: standard_name(Role::UnitCost),
    }
}

/// The standard name of a role.
pub fn standard_name_of(role: Role) -> (name: &'static str)
    ensures
        name@ == standard_name(role),
{
    match role {
        Role::Capacity => "capacity",
        Role::Flow => "flow",
        Role::Function => "function",
        Role::Name => "name",
        Role::Sink => "sink",
        Role::Src => "src",
        Role::Supply => "supply",
        Role::UnitCost => "unit_cost",
    }
}

impl Clone for GraphMetadata {
    fn clone(&self) -> (copy: Self)
        ensures
            copy@ == self@,
    {
        GraphMetadata {
            capacity: self.capacity.clone(),
            flow: self.flow.clone(),
            function: self.function.clone(),
            name: self.name.clone(),
            sink: self.sink.clone(),
            src: self.src.clone(),
            supply: self.supply.clone(),
            unit_cost: self.unit_cost.clone(),
        }
    }
}

impl Default for GraphMetadata {
    fn default() -> (m: Self)
        ensures
            m@ == standard_metadata(),
    {
        GraphMetadata::standard()
    }
}

impl GraphMetadata {
    /// The mapping that gives every role its standard name.
    pub fn standard() -> (m: Self)
        ensures
            m@ == standard_metadata(),
    {
        GraphMetadata {
            capacity: standard_name_of(Role::Capacity).to_owned(),
            flow: standard_name_of(Role::Flow).to_owned(),
            function: standard_name_of(Role::Function).to_owned(),
            name: standard_name_of(Role::Name).to_owned(),
            sink: standard_name_of(Role::Sink).to_owned(),
            src: standard_name_of(Role::Src).to_owned(),
            supply: standard_name_of(Role::Supply).to_owned(),
            unit_cost: standard_name_of(Role::UnitCost).to_owned(),
        }
    }

    /// The column of a role.
    pub fn column(&self, role: Role) -> (name: &str)
        ensures
            name@ == column_of(self@, role),
    {
        match role {
            Role::Capacity => self.capacity.as_str(),
            Role::Flow => self.flow.as_str(),
            Role::Function => self.function.as_str(),
            Role::Name => self.name.as_str(),
            Role::Sink => self.sink.as_str(),
            Role::Src => self.src.as_str(),
            Role::Supply => self.supply.as_str(),
            Role::UnitCost => self.unit_cost.as_str(),
        }
    }
}

/// The standard mapping, as a type of its own: nothing is left to declare.
#[derive(Clone, Copy, Debug, Default, PartialEq, Eq, PartialOrd, Ord, Hash)]
pub struct GraphMetadataStandard {}

impl GraphMetadataStandard {
    /// The mapping written out.
    pub fn to_pinned(&self) -> (m: GraphMetadata)
        ensures
            m@ == standard_metadata(),
    {
        GraphMetadata::standard()
    }
}

/// What a problem declares of the mapping: a column for some roles, nothing
/// for the others.
#[derive(Debug, PartialEq, Eq, PartialOrd, Ord, Hash)]
pub struct GraphMetadataRaw {
    pub capacity: Option<String>,
    pub flow: Option<String>,
    pub function: Option<String>,
    pub name: Option<String>,
    pub sink: Option<String>,
    pub src: Option<String>,
    pub supply: Option<String>,
    pub unit_cost: Option<String>,
}

/// A declared mapping as a mathematical value.
pub ghost struct GraphMetadataRawView {
    pub capacity: Option<Seq<char>>,
    pub flow: Option<Seq<char>>,
    pub function: Option<Seq<char>>,
    pub name: Option<Seq<char>>,
    pub sink: Option<Seq<char>>,
    pub src: Option<Seq<char>>,
    pub supply: Option<Seq<char>>,
    pub unit_cost: Option<Seq<char>>,
}

/// An optional name as a mathematical value.
pub open spec fn name_view(name: Option<String>) -> Option<Seq<char>> {
    match name {
        Some(name) => Some(name@),
        None => None,
    }
}

impl View for GraphMetadataRaw {
    type V = GraphMetadataRawView;

    open spec fn view(&self) -> GraphMetadataRawView {
        GraphMetadataRawView {
            capacity: name_view(self.capacity),
            flow: name_view(self.flow),
            function: name_view(self.function),
            name: name_view(self.name),
            sink: name_view(self.sink),
            src: name_view(self.src),
            supply: name_view(self.supply),
            unit_cost: name_view(self.unit_cost),
        }
    }
}

/// What a declared mapping says of a role.
pub open spec fn declared(m: GraphMetadataRawView, role: Role) -> Option<Seq<char>> {
    match role {
        Role::Capacity => m.capacity,
        Role::Flow => m.flow,
        Role::Function => m.function,
        Role::Name => m.name,
        Role::Sink => m.sink,
        Role::Src => m.src,
        Role::Supply => m.supply,
        Role::UnitCost => m.unit_cost,
    }
}

/// The mapping that declares nothing.
pub open spec fn nothing_declared() -> GraphMetadataRawView {
    GraphMetadataRawView {
        capacity: None,
        flow: None,
        function: None,
        name: None,
        sink: None,
        src: None,
        supply: None,
        unit_cost: None,
    }
}

/// Copies an optional name.
fn clone_name(name: &Option<String>) -> (copy: Option<String>)
    ensures
        name_view(copy) == name_view(*name),
{
    match name {
        Some(name) => Some(name.clone()),
        None => None,
    }
}

impl Clone for GraphMetadataRaw {
    fn clone(&self) -> (copy: Self)
        ensures
            copy@ == self@,
    {
        GraphMetadataRaw {
            capacity: clone_name(&self.capacity),
            flow: clone_name(&self.flow),
            function: clone_name(&self.function),
            name: clone_name(&self.name),
            sink: clone_name(&self.sink),
            src: clone_name(&self.src),
            supply: clone_name(&self.supply),
            unit_cost: clone_name(&self.unit_cost),
        }
    }
}

impl Default for GraphMetadataRaw {
    fn default() -> (m: Self)
        ensures
            m@ == nothing_declared(),
    {
        GraphMetadataRaw {
            capacity: None,
            flow: None,
            function: None,
            name: None,
            sink: None,
            src: None,
            supply: None,
            unit_cost: None,
        }
    }
}

impl GraphMetadataRaw {
    /// What the mapping declares of a role.
    pub fn declared(&self, role: Role) -> (name: &Option<String>)
        ensures
            name_view(*name) == declared(self@, role),
    {
        match role {
            Role::Capacity => &self.capacity,
            Role::Flow => &self.flow,
            Role::Function => &self.function,
            Role::Name => &self.name,
            Role::Sink => &self.sink,
            Role::Src => &self.src,
            Role::Supply => &self.supply,
            Role::UnitCost => &self.unit_cost,
        }
    }
}

/// What is known of the function that a frame comes from.
#[derive(Debug, PartialEq, Eq, PartialOrd, Ord, Hash)]
pub struct FunctionMetadata {
    pub name: String,
}

impl Clone for FunctionMetadata {
    fn clone(&self) -> (copy: Self)
        ensures
            copy.name@ == self.name@,
    {
        FunctionMetadata { name: self.name.clone() }
    }
}

} // verus!
