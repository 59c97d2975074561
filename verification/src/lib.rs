//! The Zepi agent panel: what it shows, how it reads the RPC stream of the Zepi process, and what it
//! writes to it.
pub mod envelope;
pub mod json;
pub mod members;
pub mod members_laws;
pub mod panel;
pub mod panel_laws;
pub mod rpc;
pub mod rpc_laws;
pub mod state;
pub mod state_laws;
pub mod text;

pub use envelope::{LineError, RpcEnvelope};
pub use json::Json;
pub use panel::{CommandStep, PromptStep, ReportStep, ZepiPanel};
pub use rpc::{
    resolve_zepi_command, RpcClient, RpcClientEvent, RpcCommand, RpcError, ZepiCommand,
};
pub use state::{DisplayRow, ExtensionUiResponse, ZepiPanelState};
