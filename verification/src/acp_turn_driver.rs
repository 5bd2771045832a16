//! Shared driver for one active ACP prompt turn.

pub mod delivery;
pub mod directives;
pub mod display;
pub mod mentions;
pub mod tools;
pub mod turn;

pub use delivery::{Delivery, DeliveryCommand};
pub use directives::{
    finalize_body, parse_output_directives, select_delivery_text, split_delivery, OutputDirectives,
};
pub use display::{
    classify_empty_turn, compose_display, ToolDisplay, ToolEntry, ToolState, SILENT_FAILURE_MSG,
};
pub use mentions::contains_bot_mention;
pub use tools::observe_tool_call;
pub use turn::{
    classify_execution, AcpEvent, AcpTurnDriver, FinishedTurn, TerminalObservation,
    TurnDeliveryContext,
};
