//! The tools that the launcher offers.

use vstd::prelude::*;

verus! {

/// A tool.
#[derive(Debug, Clone, Copy, PartialEq, Eq, Structural)]
pub enum ToolId {
    FolderPageCounter,
    UsbSafeEject,
    PdfJoiner,
}

/// Whether a tool can be used.
#[derive(Debug, Clone, Copy, PartialEq, Eq, Structural)]
pub enum ToolStatus {
    Ready,
    Planned,
}

/// How a tool is offered.
#[derive(Debug, Clone, Copy)]
pub struct ToolDefinition {
    pub id: ToolId,
    pub name: &'static str,
    pub short_name: &'static str,
    pub description: &'static str,
    pub status: ToolStatus,
}

/// How a tool is offered, as plain texts.
pub ghost struct ToolView {
    pub id: ToolId,
    pub name: Seq<char>,
    pub short_name: Seq<char>,
    pub description: Seq<char>,
    pub status: ToolStatus,
}

impl View for ToolDefinition {
    type V = ToolView;

    open spec fn view(&self) -> ToolView {
        ToolView {
            id: self.id,
            name: self.name@,
            short_name: self.short_name@,
            description: self.description@,
            status: self.status,
        }
    }
}

/// How the page counter is offered.
pub open spec fn page_counter_tool() -> ToolView {
    ToolView {
        id: ToolId::FolderPageCounter,
        name: "Folder page counter"@,
        short_name: "Page counter"@,
        description: "Select a folder and prepare a page-count run."@,
        status: ToolStatus::Ready,
    }
}

/// How the eject tool is offered.
pub open spec fn usb_eject_tool() -> ToolView {
    ToolView {
        id: ToolId::UsbSafeEject,
        name: "USB safe eject"@,
        short_name: "USB eject"@,
        description: "Select a removable drive and prepare safe eject."@,
        status: ToolStatus::Ready,
    }
}

/// How the PDF joiner is offered.
pub open spec fn pdf_joiner_tool() -> ToolView {
    ToolView {
        id: ToolId::PdfJoiner,
        name: "PDF joiner"@,
        short_name: "PDF joiner"@,
        description: "Select PDF files and prepare a merged output."@,
        status: ToolStatus::Ready,
    }
}

/// Whether a tool is among those that are offered.
pub open spec fn offers(tools: Seq<ToolDefinition>, id: ToolId) -> bool {
    exists|i: int| 0 <= i < tools.len() && (#[trigger] tools[i]).id == id
}

/// The tools, in the order in which they are offered. Each is offered once, and
/// all can be used.
pub fn all_tools() -> (tools: Vec<ToolDefinition>)
    ensures
        tools@.len() == 3,
        tools@[0]@ == page_counter_tool(),
        tools@[1]@ == usb_eject_tool(),
        tools@[2]@ == pdf_joiner_tool(),
        forall|id: ToolId| #[trigger] offers(tools@, id),
        forall|i: int, j: int|
            0 <= i < j < 3 ==> (#[trigger] tools@[i]).id != (#[trigger] tools@[j]).id,
{
    let mut tools: Vec<ToolDefinition> = Vec::new();
    tools.push(
        ToolDefinition {
            id: ToolId::FolderPageCounter,
            name: "Folder page counter",
            short_name: "Page counter",
            description: "Select a folder and prepare a page-count run.",
            status: ToolStatus::Ready,
        },
    );
    tools.push(
        ToolDefinition {
            id: ToolId::UsbSafeEject,
            name: "USB safe eject",
            short_name: "USB eject",
            description: "Select a removable drive and prepare safe eject.",
            status: ToolStatus::Ready,
        },
    );
    tools.push(
        ToolDefinition {
            id: ToolId::PdfJoiner,
            name: "PDF joiner",
            short_name: "PDF joiner",
            description: "Select PDF files and prepare a merged output.",
            status: ToolStatus::Ready,
        },
    );
    assert forall|id: ToolId| #[trigger] offers(tools@, id) by {
        let i: int = match id {
            ToolId::FolderPageCounter => 0,
            ToolId::UsbSafeEject => 1,
            ToolId::PdfJoiner => 2,
        };
        assert(tools@[i].id == id);
    }
    tools
}

} // verus!
