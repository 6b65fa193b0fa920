//! The library's operations in one place: target resolution, listing
//! lookup, probe discovery, the uhubctl and lsusb answers, the last-seen
//! records and the power-control flows.
pub use crate::args::{CycleArgs, TargetArgs};
pub use crate::boards::{boards_from_entries, resolve_target_with, short_name_vidpid, BoardEntry, Boards, ResolvedTarget};
pub use crate::error::HubError;
pub use crate::flow::{power_cycle_with, power_off, power_on, usb_status, Action, Event, Flow, Op, Stage};
pub use crate::jlink::{check_jlink_nickname, jlink_nicknames_report, usb_serial_form_exec, jlink_serial_for_nickname_with, materialize_target, parse_emu_list, JlinkEmu};
pub use crate::last_seen::{recall_location, remember_location};
pub use crate::listing::{attached_vidpid, find_device, locate, verify_id, FoundPort};
pub use crate::uhubctl::{lsusb_reports_device, set_power_with, uhubctl_outcome};
pub use crate::targets::usb_targets_report;
