//! Boot-partition discovery for raw disk images.
//!
//! Given a path to a pre-partitioned disk image, the library reads the
//! MBR-style partition table, inspects each candidate partition's FAT boot
//! sector, and returns the first partition whose filesystem volume label
//! identifies it as an operating-system boot volume.

pub mod disk;
pub mod error;
pub mod locate;
pub mod table;
pub mod volume;

pub use error::LocateError;
pub use locate::BootPartition;
pub use locate::inspection_window;
pub use locate::locate_boot_partition;
pub use locate::read_partition_table;
pub use locate::scan_table;
pub use locate::select_boot_index;
pub use table::parse_partition_table;
pub use table::PartitionEntry;
pub use table::TypePolicy;
pub use volume::volume_label;
