//! The graph data model: content-addressed rows, the scopes that name graphs,
//! and the mapping from column roles to column names.

pub mod metadata;
pub mod row;
pub mod scope;

pub use self::metadata::{
    FunctionMetadata, GraphDataType, GraphMetadata, GraphMetadataRaw, GraphMetadataStandard,
};
pub use self::row::{GraphError, NetworkEdgeKey, NetworkGraphRow, NetworkNodeKey, NetworkValue};
pub use self::scope::{Graph, GraphData, GraphFilter, GraphScope};
