//! The icons, drawn as paths.

use crate::app::markup::{lemma_depth, AccentPart, Markup, MarkupView};
use crate::registry::ToolId;
use vstd::prelude::*;

verus! {

/// A path of the icon of the program.
pub const BRAND_PATH_1: &'static str = "M14 4 H50 C55.52 4 60 8.48 60 14 V50 C60 55.52 55.52 60 50 60 H14 C8.48 60 4 55.52 4 50 V14 C4 8.48 8.48 4 14 4 Z";

/// A path of the icon of the program.
pub const BRAND_PATH_2: &'static str = "M24 16.5 H36.5 C37.2 16.5 37.8 16.8 38.3 17.3 L46.7 25.7 C47.2 26.2 47.5 26.8 47.5 27.5 V46 C47.5 47.1 46.6 48 45.5 48 H24 C22.9 48 22 47.1 22 46 V18.5 C22 17.4 22.9 16.5 24 16.5 Z";

/// A path of the icon of the program.
pub const BRAND_PATH_3: &'static str = "M38 18 V25 C38 26.1 38.9 27 40 27 H46";

/// A path of the icon of the program.
pub const BRAND_PATH_4: &'static str = "M28.5 33.5 H37.5 M28.5 39 H41.5";

/// A path of the icon of the PDF joiner.
pub const PDF_PATH_1: &'static str = "M6.45 12.45 V3.9 C6.45 3.22 7 2.68 7.68 2.68 H14.35 C14.72 2.68 15.08 2.83 15.34 3.09 L18.96 6.71 C19.22 6.97 19.37 7.33 19.37 7.7 V20.18 C19.37 20.86 18.82 21.4 18.14 21.4 H16.6";

/// A path of the icon of the PDF joiner.
pub const PDF_PATH_2: &'static str = "M14.35 2.85 V6.65 C14.35 7.08 14.7 7.43 15.13 7.43 H19.18";

/// A path of the icon of the PDF joiner.
pub const PDF_PATH_3: &'static str = "M2.85 13.55 H15.05 C15.5 13.55 15.86 13.91 15.86 14.36 V19.42 C15.86 19.87 15.5 20.23 15.05 20.23 H2.85 C2.4 20.23 2.04 19.87 2.04 19.42 V14.36 C2.04 13.91 2.4 13.55 2.85 13.55 Z M3.35 15.05 V18.85 H4.42 V17.55 H5.64 C6.6 17.55 7.18 17.08 7.18 16.28 C7.18 15.48 6.6 15.05 5.64 15.05 H3.35 Z M4.42 15.88 H5.5 C5.92 15.88 6.14 16.03 6.14 16.29 C6.14 16.56 5.92 16.72 5.5 16.72 H4.42 Z M7.75 15.05 V18.85 H9.28 C10.58 18.85 11.42 18.1 11.42 16.95 C11.42 15.8 10.58 15.05 9.28 15.05 H7.75 Z M8.82 15.9 H9.2 C9.9 15.9 10.34 16.3 10.34 16.95 C10.34 17.6 9.9 18 9.2 18 H8.82 Z M12 15.05 V18.85 H13.07 V17.48 H14.7 V16.62 H13.07 V15.93 H15.08 V15.05 H12 Z";

/// A path of the icon of the page counter.
pub const FOLDER_PATH_1: &'static str = "M20 9 V6.47214 C20 6.16165 19.92771 5.85542 19.78885 5.57771 L19 4 H14 L13 6 H3 C2.4477 6 2 6.44772 2 7 V9 V18 C2 19.1046 2.8954 20 4 20 H6";

/// A path of the icon of the page counter.
pub const FOLDER_PATH_2: &'static str = "M6.7638 9 H21.69075 C22.35012 9 22.82901 9.62698 22.65551 10.2631 L20.40194 18.5262 C20.16463 19.3964 19.37431 20 18.47241 20 H4.3092 C3.6499 20 3.171 19.373 3.3445 18.7369 L5.799 9.73688 C5.9177 9.30182 6.3128 9 6.7638 9 Z";

/// A path of the icon of the eject tool.
pub const USB_PATH_1: &'static str = "M1520.24,1431.93 H1562.96 V1517.79 C1562.96,1542.67 1552.38,1566.52 1533.93,1583.22 L1415.64,1690.29 V1222.38 H1467.58 L1398.24,1102.28 L1328.9,1222.38 H1380.84 V1840.52 L1262.55,1733.45 C1244.1,1716.75 1233.52,1692.9 1233.52,1668.02 V1580.06 C1258.49,1572.58 1276.7,1549.45 1276.7,1522.04 C1276.7,1488.58 1249.58,1461.46 1216.12,1461.46 C1182.66,1461.46 1155.54,1488.58 1155.54,1522.04 C1155.54,1549.45 1173.75,1572.58 1198.72,1580.06 V1668.02 C1198.72,1702.71 1213.47,1735.96 1239.19,1759.24 L1380.83,1887.45 V1985.03 C1333.59,1993.27 1297.67,2034.46 1297.67,2084.06 C1297.67,2139.6 1342.69,2184.62 1398.23,2184.62 C1453.77,2184.62 1498.79,2139.6 1498.79,2084.06 C1498.79,2034.46 1462.87,1993.28 1415.63,1985.03 V1737.22 L1557.27,1609.01 C1582.99,1585.73 1597.74,1552.48 1597.74,1517.78 V1431.92 H1640.45 V1311.7 H1520.23 V1431.92 Z";

/// A path of the icon of the eject tool.
pub const USB_PATH_2: &'static str = "M1853.45,818.95 H1772.5 V372.55 C1772.5,347.97 1752.57,328.04 1727.99,328.04 H1067.99 C1043.41,328.04 1023.48,347.97 1023.48,372.55 V818.95 H942.53 C917.95,818.95 898.02,838.88 898.02,863.46 V2213.46 C898.02,2281.44 924.49,2345.35 972.56,2393.42 C1020.63,2441.49 1084.54,2467.96 1152.52,2467.96 H1643.43 C1711.41,2467.96 1775.32,2441.49 1823.39,2393.42 C1871.46,2345.35 1897.93,2281.44 1897.93,2213.46 V863.46 C1897.93,838.88 1878.03,818.95 1853.45,818.95 Z M1112.51,417.06 H1683.49 V818.95 H1112.51 V417.06 Z M1808.95,2213.46 C1808.95,2304.71 1734.71,2378.95 1643.46,2378.95 H1152.55 C1061.3,2378.95 987.06,2304.71 987.06,2213.46 V907.96 H1808.95 V2213.45 Z";

/// A path of the icon of the eject tool.
pub const USB_PATH_3: &'static str = "M1228.24,540.77 H1287.75 C1295.9,540.77 1302.5,547.37 1302.5,555.52 V615.03 C1302.5,623.18 1295.9,629.78 1287.75,629.78 H1228.24 C1220.09,629.78 1213.49,623.18 1213.49,615.03 V555.52 C1213.49,547.37 1220.09,540.77 1228.24,540.77 Z";

/// A path of the icon of the eject tool.
pub const USB_PATH_4: &'static str = "M1508.24,540.77 H1567.75 C1575.9,540.77 1582.5,547.37 1582.5,555.52 V615.03 C1582.5,623.18 1575.9,629.78 1567.75,629.78 H1508.24 C1500.09,629.78 1493.49,623.18 1493.49,615.03 V555.52 C1493.49,547.37 1500.09,540.77 1508.24,540.77 Z";

impl MarkupView {
    /// An icon with a class and a coordinate system, opened.
    pub open spec fn icon_start(self, class: Seq<char>, view_box: Seq<char>) -> MarkupView {
        self.begin("svg"@, "svg-icon"@).class(class).attribute(
            "xmlns"@,
            "http://www.w3.org/2000/svg"@,
        ).attribute("viewBox"@, view_box)
    }

    pub open spec fn plain_path(self, data: Seq<char>) -> MarkupView {
        self.open("path"@).attribute("d"@, data).close()
    }

    pub open spec fn circle(self, cx: Seq<char>, cy: Seq<char>, r: Seq<char>) -> MarkupView {
        self.open("circle"@).attribute("cx"@, cx).attribute("cy"@, cy).attribute("r"@, r).close()
    }

    /// A path that is drawn with round ends and corners.
    pub open spec fn stroked_path(
        self,
        data: Seq<char>,
        stroke: Seq<char>,
        width: Seq<char>,
    ) -> MarkupView {
        self.open("path"@).attribute("d"@, data).attribute("fill"@, "none"@).attribute(
            "stroke"@,
            stroke,
        ).attribute("stroke-width"@, width).attribute("stroke-linecap"@, "round"@).attribute(
            "stroke-linejoin"@,
            "round"@,
        ).close()
    }

    /// A path that is filled.
    pub open spec fn filled_path(self, data: Seq<char>, fill: Seq<char>) -> MarkupView {
        self.open("path"@).attribute("d"@, data).attribute("fill"@, fill).attribute(
            "stroke"@,
            "none"@,
        ).close()
    }

    /// A stop of a gradient.
    pub open spec fn gradient_stop(
        self,
        offset: Seq<char>,
        tool: ToolId,
        part: AccentPart,
    ) -> MarkupView {
        self.open("stop"@).attribute("offset"@, offset).stop_colour(tool, part).close()
    }

    /// The gradient of a tool's accent, from the bottom to the top.
    pub open spec fn accent_gradient(
        self,
        id: Seq<char>,
        bottom: Seq<char>,
        tool: ToolId,
    ) -> MarkupView {
        self.open("defs"@).open("linearGradient"@).id(id).attribute("x1"@, "0"@).attribute(
            "y1"@,
            bottom,
        ).attribute("x2"@, "0"@).attribute("y2"@, "0"@).attribute(
            "gradientUnits"@,
            "userSpaceOnUse"@,
        ).gradient_stop("0%"@, tool, AccentPart::Shadow).gradient_stop(
            "14%"@,
            tool,
            AccentPart::Body,
        ).gradient_stop("54%"@, tool, AccentPart::Body).gradient_stop(
            "82%"@,
            tool,
            AccentPart::Saturated,
        ).gradient_stop("93%"@, tool, AccentPart::Shifted).gradient_stop(
            "97%"@,
            tool,
            AccentPart::End,
        ).close().close()
    }
}

fn icon_start(markup: &mut Markup, class: &'static str, view_box: &str)
    ensures
        final(markup)@ == old(markup)@.icon_start(class@, view_box@),
        final(markup)@.depth() == old(markup)@.depth() + 1,
{
    broadcast use lemma_depth;
    markup.begin("svg", "svg-icon");
    markup.class(class);
    markup.attribute("xmlns", "http://www.w3.org/2000/svg");
    markup.attribute("viewBox", view_box);
}

fn plain_path(markup: &mut Markup, data: &str)
    ensures
        final(markup)@ == old(markup)@.plain_path(data@),
        final(markup)@.depth() == old(markup)@.depth(),
{
    broadcast use lemma_depth;
    markup.open("path");
    markup.attribute("d", data);
    markup.close();
}

fn circle(markup: &mut Markup, cx: &str, cy: &str, r: &str)
    ensures
        final(markup)@ == old(markup)@.circle(cx@, cy@, r@),
        final(markup)@.depth() == old(markup)@.depth(),
{
    broadcast use lemma_depth;
    markup.open("circle");
    markup.attribute("cx", cx);
    markup.attribute("cy", cy);
    markup.attribute("r", r);
    markup.close();
}

fn stroked_path(markup: &mut Markup, data: &str, stroke: &str, width: &str)
    ensures
        final(markup)@ == old(markup)@.stroked_path(data@, stroke@, width@),
        final(markup)@.depth() == old(markup)@.depth(),
{
    broadcast use lemma_depth;
    markup.open("path");
    markup.attribute("d", data);
    markup.attribute("fill", "none");
    markup.attribute("stroke", stroke);
    markup.attribute("stroke-width", width);
    markup.attribute("stroke-linecap", "round");
    markup.attribute("stroke-linejoin", "round");
    markup.close();
}

fn filled_path(markup: &mut Markup, data: &str, fill: &str)
    ensures
        final(markup)@ == old(markup)@.filled_path(data@, fill@),
        final(markup)@.depth() == old(markup)@.depth(),
{
    broadcast use lemma_depth;
    markup.open("path");
    markup.attribute("d", data);
    markup.attribute("fill", fill);
    markup.attribute("stroke", "none");
    markup.close();
}

fn gradient_stop(markup: &mut Markup, offset: &str, tool: ToolId, part: AccentPart)
    ensures
        final(markup)@ == old(markup)@.gradient_stop(offset@, tool, part),
        final(markup)@.depth() == old(markup)@.depth(),
{
    broadcast use lemma_depth;
    markup.open("stop");
    markup.attribute("offset", offset);
    markup.stop_colour(tool, part);
    markup.close();
}

fn accent_gradient(markup: &mut Markup, id: &'static str, bottom: &str, tool: ToolId)
    ensures
        final(markup)@ == old(markup)@.accent_gradient(id@, bottom@, tool),
        final(markup)@.depth() == old(markup)@.depth(),
{
    broadcast use lemma_depth;
    markup.open("defs");
    markup.open("linearGradient");
    markup.id(id);
    markup.attribute("x1", "0");
    markup.attribute("y1", bottom);
    markup.attribute("x2", "0");
    markup.attribute("y2", "0");
    markup.attribute("gradientUnits", "userSpaceOnUse");
    gradient_stop(markup, "0%", tool, AccentPart::Shadow);
    gradient_stop(markup, "14%", tool, AccentPart::Body);
    gradient_stop(markup, "54%", tool, AccentPart::Body);
    gradient_stop(markup, "82%", tool, AccentPart::Saturated);
    gradient_stop(markup, "93%", tool, AccentPart::Shifted);
    gradient_stop(markup, "97%", tool, AccentPart::End);
    markup.close();
    markup.close();
}

impl MarkupView {
    /// The icon of the program.
    #[verifier::opaque]
    pub open spec fn icon_app_brand(self) -> MarkupView {
        self.icon_start("icon-app-brand"@, "0 0 64 64"@)
            .filled_path(BRAND_PATH_1@, "rgb(20, 106, 158)"@)
            .stroked_path(BRAND_PATH_2@, "rgb(255, 255, 255)"@, "2.5"@)
            .stroked_path(BRAND_PATH_3@, "rgb(255, 255, 255)"@, "2.5"@)
            .stroked_path(BRAND_PATH_4@, "rgb(255, 255, 255)"@, "2"@)
            .close()
    }
}

/// Writes the icon of the program.
pub fn icon_app_brand(markup: &mut Markup)
    ensures
        final(markup)@ == old(markup)@.icon_app_brand(),
        final(markup)@.depth() == old(markup)@.depth(),
{
    broadcast use lemma_depth;
    reveal(MarkupView::icon_app_brand);
    icon_start(markup, "icon-app-brand", "0 0 64 64");
    filled_path(markup, BRAND_PATH_1, "rgb(20, 106, 158)");
    stroked_path(markup, BRAND_PATH_2, "rgb(255, 255, 255)", "2.5");
    stroked_path(markup, BRAND_PATH_3, "rgb(255, 255, 255)", "2.5");
    stroked_path(markup, BRAND_PATH_4, "rgb(255, 255, 255)", "2");
    markup.close();
}

impl MarkupView {
    /// The icon of the PDF joiner.
    #[verifier::opaque]
    pub open spec fn icon_pdf_document(self) -> MarkupView {
        self.icon_start("icon-pdf-document"@, "0 0 24 24"@)
            .accent_gradient("pdf-accent-gradient"@, "24"@, ToolId::PdfJoiner)
            .stroked_path(PDF_PATH_1@, "url(#pdf-accent-gradient)"@, "1.35"@)
            .stroked_path(PDF_PATH_2@, "url(#pdf-accent-gradient)"@, "1.35"@)
            .filled_path(PDF_PATH_3@, "url(#pdf-accent-gradient)"@)
            .close()
    }
}

/// Writes the icon of the PDF joiner.
pub fn icon_pdf_document(markup: &mut Markup)
    ensures
        final(markup)@ == old(markup)@.icon_pdf_document(),
        final(markup)@.depth() == old(markup)@.depth(),
{
    broadcast use lemma_depth;
    reveal(MarkupView::icon_pdf_document);
    icon_start(markup, "icon-pdf-document", "0 0 24 24");
    accent_gradient(markup, "pdf-accent-gradient", "24", ToolId::PdfJoiner);
    stroked_path(markup, PDF_PATH_1, "url(#pdf-accent-gradient)", "1.35");
    stroked_path(markup, PDF_PATH_2, "url(#pdf-accent-gradient)", "1.35");
    filled_path(markup, PDF_PATH_3, "url(#pdf-accent-gradient)");
    markup.close();
}

impl MarkupView {
    /// The icon of the page counter.
    #[verifier::opaque]
    pub open spec fn icon_folder(self) -> MarkupView {
        self.icon_start("icon-folder"@, "0 0 24 24"@)
            .accent_gradient("folder-accent-gradient"@, "24"@, ToolId::FolderPageCounter)
            .stroked_path(FOLDER_PATH_1@, "url(#folder-accent-gradient)"@, "1.15"@)
            .stroked_path(FOLDER_PATH_2@, "url(#folder-accent-gradient)"@, "1.15"@)
            .close()
    }
}

/// Writes the icon of the page counter.
pub fn icon_folder(markup: &mut Markup)
    ensures
        final(markup)@ == old(markup)@.icon_folder(),
        final(markup)@.depth() == old(markup)@.depth(),
{
    broadcast use lemma_depth;
    reveal(MarkupView::icon_folder);
    icon_start(markup, "icon-folder", "0 0 24 24");
    accent_gradient(markup, "folder-accent-gradient", "24", ToolId::FolderPageCounter);
    stroked_path(markup, FOLDER_PATH_1, "url(#folder-accent-gradient)", "1.15");
    stroked_path(markup, FOLDER_PATH_2, "url(#folder-accent-gradient)", "1.15");
    markup.close();
}

impl MarkupView {
    /// The icon of the eject tool.
    #[verifier::opaque]
    pub open spec fn icon_usb(self) -> MarkupView {
        self.icon_start("icon-usb"@, "0 0 2796 2796"@)
            .accent_gradient("usb-accent-gradient"@, "2796"@, ToolId::UsbSafeEject)
            .filled_path(USB_PATH_1@, "url(#usb-accent-gradient)"@)
            .filled_path(USB_PATH_2@, "url(#usb-accent-gradient)"@)
            .filled_path(USB_PATH_3@, "url(#usb-accent-gradient)"@)
            .filled_path(USB_PATH_4@, "url(#usb-accent-gradient)"@)
            .close()
    }
}

/// Writes the icon of the eject tool.
pub fn icon_usb(markup: &mut Markup)
    ensures
        final(markup)@ == old(markup)@.icon_usb(),
        final(markup)@.depth() == old(markup)@.depth(),
{
    broadcast use lemma_depth;
    reveal(MarkupView::icon_usb);
    icon_start(markup, "icon-usb", "0 0 2796 2796");
    accent_gradient(markup, "usb-accent-gradient", "2796", ToolId::UsbSafeEject);
    filled_path(markup, USB_PATH_1, "url(#usb-accent-gradient)");
    filled_path(markup, USB_PATH_2, "url(#usb-accent-gradient)");
    filled_path(markup, USB_PATH_3, "url(#usb-accent-gradient)");
    filled_path(markup, USB_PATH_4, "url(#usb-accent-gradient)");
    markup.close();
}

impl MarkupView {
    /// The icon for the launcher.
    #[verifier::opaque]
    pub open spec fn icon_launch(self) -> MarkupView {
        self.icon_start("icon-launch"@, "0 0 24 24"@)
            .plain_path("M5 19 L19 5"@)
            .plain_path("M10 5 L19 5 L19 14"@)
            .close()
    }
}

/// Writes the icon for the launcher.
pub fn icon_launch(markup: &mut Markup)
    ensures
        final(markup)@ == old(markup)@.icon_launch(),
        final(markup)@.depth() == old(markup)@.depth(),
{
    broadcast use lemma_depth;
    reveal(MarkupView::icon_launch);
    icon_start(markup, "icon-launch", "0 0 24 24");
    plain_path(markup, "M5 19 L19 5");
    plain_path(markup, "M10 5 L19 5 L19 14");
    markup.close();
}

impl MarkupView {
    /// The icon for the settings.
    #[verifier::opaque]
    pub open spec fn icon_sliders(self) -> MarkupView {
        self.icon_start("icon-sliders"@, "0 0 24 24"@)
            .plain_path("M4 7 L20 7"@)
            .plain_path("M4 17 L20 17"@)
            .circle("9"@, "7"@, "2"@)
            .circle("15"@, "17"@, "2"@)
            .close()
    }
}

/// Writes the icon for the settings.
pub fn icon_sliders(markup: &mut Markup)
    ensures
        final(markup)@ == old(markup)@.icon_sliders(),
        final(markup)@.depth() == old(markup)@.depth(),
{
    broadcast use lemma_depth;
    reveal(MarkupView::icon_sliders);
    icon_start(markup, "icon-sliders", "0 0 24 24");
    plain_path(markup, "M4 7 L20 7");
    plain_path(markup, "M4 17 L20 17");
    circle(markup, "9", "7", "2");
    circle(markup, "15", "17", "2");
    markup.close();
}

impl MarkupView {
    /// The icon for minimizing.
    #[verifier::opaque]
    pub open spec fn icon_minimize(self) -> MarkupView {
        self.icon_start("icon-minimize"@, "0 0 24 24"@)
            .plain_path("M5 17 L19 17"@)
            .close()
    }
}

/// Writes the icon for minimizing.
pub fn icon_minimize(markup: &mut Markup)
    ensures
        final(markup)@ == old(markup)@.icon_minimize(),
        final(markup)@.depth() == old(markup)@.depth(),
{
    broadcast use lemma_depth;
    reveal(MarkupView::icon_minimize);
    icon_start(markup, "icon-minimize", "0 0 24 24");
    plain_path(markup, "M5 17 L19 17");
    markup.close();
}

impl MarkupView {
    /// The icon for going on.
    #[verifier::opaque]
    pub open spec fn icon_chevron(self) -> MarkupView {
        self.icon_start("icon-chevron"@, "0 0 24 24"@)
            .plain_path("M9 6 L15 12 L9 18"@)
            .close()
    }
}

/// Writes the icon for going on.
pub fn icon_chevron(markup: &mut Markup)
    ensures
        final(markup)@ == old(markup)@.icon_chevron(),
        final(markup)@.depth() == old(markup)@.depth(),
{
    broadcast use lemma_depth;
    reveal(MarkupView::icon_chevron);
    icon_start(markup, "icon-chevron", "0 0 24 24");
    plain_path(markup, "M9 6 L15 12 L9 18");
    markup.close();
}

impl MarkupView {
    /// The icon for the history.
    #[verifier::opaque]
    pub open spec fn icon_history(self) -> MarkupView {
        self.icon_start("icon-history"@, "0 0 24 24"@)
            .plain_path("M12 6 L12 12 L16 14"@)
            .plain_path("M7 8 L4 8 L4 5"@)
            .circle("12"@, "12"@, "8"@)
            .close()
    }
}

/// Writes the icon for the history.
pub fn icon_history(markup: &mut Markup)
    ensures
        final(markup)@ == old(markup)@.icon_history(),
        final(markup)@.depth() == old(markup)@.depth(),
{
    broadcast use lemma_depth;
    reveal(MarkupView::icon_history);
    icon_start(markup, "icon-history", "0 0 24 24");
    plain_path(markup, "M12 6 L12 12 L16 14");
    plain_path(markup, "M7 8 L4 8 L4 5");
    circle(markup, "12", "12", "8");
    markup.close();
}

} // verus!
