//! Order lifecycle state machine and client↔venue id mapping: a pure,
//! deterministic core. Every timestamp and id arrives on events; effects are
//! descriptions for the I/O shell, never executed here.

pub mod account;
pub mod apply;
pub mod backfill;
pub mod cancel;
pub mod ctx;
pub mod fills;
pub mod finalize;
pub mod outcome;
pub mod rebuild;
pub mod replay;
pub mod submit;
pub mod types;

pub use account::has_reliable_boundary;
pub use apply::apply_event;
pub use ctx::{AppliedFills, OrderCtx};
pub use finalize::ProposedTerminal;
pub use outcome::TransitionOutcome;
pub use rebuild::rebuild_ctx_from_journal;
pub use replay::{replay, ReplayResult};
pub use types::{
    derive_client_order_id, reservation_held, AttemptId, BackfillOrderRecord, BackfillOrderStatus,
    CancelOutcome, ClientOrderId, Effect, FillId, FillPayload, FillRecord, HaltReason,
    JournalRecord, OrderEvent, OrderState, ReconcileTarget, ReconcileTerminal, RejectReason,
    ReservationHold, Side, SnapshotBoundary, TerminalKind, VenueOrderId,
};
