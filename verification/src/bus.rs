//! Bus-type classification of a physical drive.

use vstd::prelude::*;

verus! {

/// The interconnect through which a drive is attached.
#[derive(Clone, Copy, Debug, PartialEq, Eq, Structural)]
pub enum BusType {
    Scsi,
    Atapi,
    Ata,
    Ieee1394,
    Ssa,
    FibreChannel,
    Usb,
    Raid,
    Iscsi,
    Sas,
    Sata,
    Sd,
    Mmc,
    Virtual,
    FileBackedVirtual,
    StorageSpaces,
    Nvme,
    Scm,
    /// The reserved top value of the code table.
    MaxReserved,
    Unknown,
}

impl BusType {
    /// The bus type that a device-reported code stands for.
    pub open spec fn of_code(code: u8) -> BusType {
        match code {
            0x01 => BusType::Scsi,
            0x02 => BusType::Atapi,
            0x03 => BusType::Ata,
            0x04 => BusType::Ieee1394,
            0x05 => BusType::Ssa,
            0x06 => BusType::FibreChannel,
            0x07 => BusType::Usb,
            0x08 => BusType::Raid,
            0x09 => BusType::Iscsi,
            0x0A => BusType::Sas,
            0x0B => BusType::Sata,
            0x0C => BusType::Sd,
            0x0D => BusType::Mmc,
            0x0E => BusType::Virtual,
            0x0F => BusType::FileBackedVirtual,
            0x10 => BusType::StorageSpaces,
            0x11 => BusType::Nvme,
            0x12 => BusType::Scm,
            0x7F => BusType::MaxReserved,
            _ => BusType::Unknown,
        }
    }

    /// Whether the code table gives `code` a name.
    pub open spec fn is_defined_code(code: u8) -> bool {
        0x01 <= code <= 0x12 || code == 0x7F
    }

    /// Decodes a device-reported bus-type code. Codes outside the table map to
    /// `Unknown`, and only those do.
    pub fn from_code(code: u8) -> (bus: BusType)
        ensures
            bus == Self::of_code(code),
            bus == BusType::Unknown <==> !Self::is_defined_code(code),
    {
        match code {
            0x01 => BusType::Scsi,
            0x02 => BusType::Atapi,
            0x03 => BusType::Ata,
            0x04 => BusType::Ieee1394,
            0x05 => BusType::Ssa,
            0x06 => BusType::FibreChannel,
            0x07 => BusType::Usb,
            0x08 => BusType::Raid,
            0x09 => BusType::Iscsi,
            0x0A => BusType::Sas,
            0x0B => BusType::Sata,
            0x0C => BusType::Sd,
            0x0D => BusType::Mmc,
            0x0E => BusType::Virtual,
            0x0F => BusType::FileBackedVirtual,
            0x10 => BusType::StorageSpaces,
            0x11 => BusType::Nvme,
            0x12 => BusType::Scm,
            0x7F => BusType::MaxReserved,
            _ => BusType::Unknown,
        }
    }

    /// The display name of the bus type.
    pub open spec fn name_text(self) -> Seq<char> {
        match self {
            BusType::Scsi => "SCSI"@,
            BusType::Atapi => "ATAPI"@,
            BusType::Ata => "ATA"@,
            BusType::Ieee1394 => "1394"@,
            BusType::Ssa => "SSA"@,
            BusType::FibreChannel => "Fibre"@,
            BusType::Usb => "USB"@,
            BusType::Raid => "RAID"@,
            BusType::Iscsi => "iSCSI"@,
            BusType::Sas => "SAS"@,
            BusType::Sata => "SATA"@,
            BusType::Sd => "SD"@,
            BusType::Mmc => "MMC"@,
            BusType::Virtual => "VIRTUAL"@,
            BusType::FileBackedVirtual => "FileBackedVirtual"@,
            BusType::StorageSpaces => "Spaces"@,
            BusType::Nvme => "NVMe"@,
            BusType::Scm => "SCM"@,
            BusType::MaxReserved => "BusTypeMaxReserved"@,
            BusType::Unknown => "UNKNOWN"@,
        }
    }

    /// The display name of the bus type.
    pub fn name(&self) -> (text: &'static str)
        ensures
            text@ == self.name_text(),
    {
        match self {
            BusType::Scsi => "SCSI",
            BusType::Atapi => "ATAPI",
            BusType::Ata => "ATA",
            BusType::Ieee1394 => "1394",
            BusType::Ssa => "SSA",
            BusType::FibreChannel => "Fibre",
            BusType::Usb => "USB",
            BusType::Raid => "RAID",
            BusType::Iscsi => "iSCSI",
            BusType::Sas => "SAS",
            BusType::Sata => "SATA",
            BusType::Sd => "SD",
            BusType::Mmc => "MMC",
            BusType::Virtual => "VIRTUAL",
            BusType::FileBackedVirtual => "FileBackedVirtual",
            BusType::StorageSpaces => "Spaces",
            BusType::Nvme => "NVMe",
            BusType::Scm => "SCM",
            BusType::MaxReserved => "BusTypeMaxReserved",
            BusType::Unknown => "UNKNOWN",
        }
    }
}

} // verus!
