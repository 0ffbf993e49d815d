//! Printing a rendered receipt: the errors of rendering and output, the renderer and printer
//! roles, and the exact bytes a network printer is sent.
use vstd::prelude::*;

use crate::domain::{
    domain_error_text, DomainError, DomainErrorView, NetworkPrinterTarget, PrintJob,
    RenderedReceiptImage,
};
use crate::escpos::{
    byte_vec_views, esc_d_feed_command, escpos_error_text, fragment_commands_error,
    fragment_commands_from, fragment_height, fragments_allocation_failure,
    gs_v0_raster_bit_image_commands, gs_v_cut_command, image_check, lemma_fragment_layout,
    rows_command,
    EscPosEncodingError, ESC_POS_CUT_COMMAND, ESC_POS_DEFAULT_CUT_FEED_LINES,
    ESC_POS_DEFAULT_IMAGE_FRAGMENT_HEIGHT_PX, ESC_POS_ESC, ESC_POS_GS,
    ESC_POS_PRINT_AND_FEED_COMMAND,
};
use crate::text::decimal_digits;

verus! {

/// Why rendering or printing failed.
#[derive(Debug, Clone, PartialEq, Eq)]
pub enum InfraError {
    UnsupportedPlatform(&'static str),
    InvalidPrinterTarget(DomainError),
    TextRendering { details: String },
    EscPosEncoding(EscPosEncodingError),
    NetworkIo { target: String, operation: &'static str, details: String },
}

/// An `InfraError` with its texts as character sequences.
pub enum InfraErrorView {
    UnsupportedPlatform(Seq<char>),
    InvalidPrinterTarget(DomainErrorView),
    TextRendering { details: Seq<char> },
    EscPosEncoding(EscPosEncodingError),
    NetworkIo { target: Seq<char>, operation: Seq<char>, details: Seq<char> },
}

impl View for InfraError {
    type V = InfraErrorView;

    open spec fn view(&self) -> InfraErrorView {
        match self {
            InfraError::UnsupportedPlatform(feature) => InfraErrorView::UnsupportedPlatform(
                feature@,
            ),
            InfraError::InvalidPrinterTarget(e) => InfraErrorView::InvalidPrinterTarget(e@),
            InfraError::TextRendering { details } => InfraErrorView::TextRendering {
                details: details@,
            },
            InfraError::EscPosEncoding(e) => InfraErrorView::EscPosEncoding(*e),
            InfraError::NetworkIo { target, operation, details } => InfraErrorView::NetworkIo {
                target: target@,
                operation: operation@,
                details: details@,
            },
        }
    }
}

/// The text an `InfraError` is shown with.
pub open spec fn infra_error_text(e: InfraErrorView) -> Seq<char> {
    match e {
        InfraErrorView::UnsupportedPlatform(feature) => feature + " is only available on Windows"@,
        InfraErrorView::InvalidPrinterTarget(d) => "invalid printer target: "@ + domain_error_text(
            d,
        ),
        InfraErrorView::TextRendering { details } => "text-to-image rendering failed: "@ + details,
        InfraErrorView::EscPosEncoding(x) => "ESC/POS raster encoding failed: "@ + escpos_error_text(
            x,
        ),
        InfraErrorView::NetworkIo { target, operation, details } => "ESC/POS network "@ + operation
            + " failed for "@ + target + ": "@ + details,
    }
}

impl InfraError {
    /// A rendering failure described by `details`.
    pub fn text_rendering(details: String) -> (r: InfraError)
        ensures
            r@ == (InfraErrorView::TextRendering { details: details@ }),
    {
        InfraError::TextRendering { details }
    }

    /// A failure of the network `operation` towards `target`, described by `details`.
    pub fn network_io(target: &NetworkPrinterTarget, operation: &'static str, details: String) -> (r:
        InfraError)
        ensures
            r@ == (InfraErrorView::NetworkIo {
                target: target.ip@ + ":"@ + decimal_digits(target.port as nat),
                operation: operation@,
                details: details@,
            }),
    {
        InfraError::NetworkIo { target: target.display_text(), operation, details }
    }

    /// The text this error is shown with.
    pub fn message(&self) -> (r: String)
        ensures
            r@ == infra_error_text(self@),
    {
        match self {
            InfraError::UnsupportedPlatform(feature) => {
                let mut r = (*feature).to_owned();
                r.append(" is only available on Windows");
                r
            },
            InfraError::InvalidPrinterTarget(e) => {
                let mut r = "invalid printer target: ".to_owned();
                r.append(e.message().as_str());
                r
            },
            InfraError::TextRendering { details } => {
                let mut r = "text-to-image rendering failed: ".to_owned();
                r.append(details.as_str());
                r
            },
            InfraError::EscPosEncoding(e) => {
                let mut r = "ESC/POS raster encoding failed: ".to_owned();
                r.append(e.message().as_str());
                r
            },
            InfraError::NetworkIo { target, operation, details } => {
                let mut r = "ESC/POS network ".to_owned();
                r.append(operation);
                r.append(" failed for ");
                r.append(target.as_str());
                r.append(": ");
                r.append(details.as_str());
                r
            },
        }
    }
}

/// Turns a print job into a receipt image.
pub trait TextImageRenderer {
    fn render_text(&self, job: &PrintJob) -> Result<RenderedReceiptImage, InfraError>;
}

/// Sends a receipt image to a printer and cuts the paper.
pub trait EscPosPrinter {
    fn send_image_and_cut(&self, target: &NetworkPrinterTarget, image: &RenderedReceiptImage) -> Result<
        (),
        InfraError,
    >;
}

/// The feed command sent before the cut.
pub open spec fn feed_before_cut() -> Seq<u8> {
    seq![ESC_POS_ESC, ESC_POS_PRINT_AND_FEED_COMMAND, ESC_POS_DEFAULT_CUT_FEED_LINES]
}

/// The full-cut command.
pub open spec fn full_cut() -> Seq<u8> {
    seq![ESC_POS_GS, ESC_POS_CUT_COMMAND, 0u8]
}

/// The writes a network printer receives for `image`: each raster fragment of at most 960 rows,
/// then the feed, then the cut.
pub open spec fn printer_writes(image: &RenderedReceiptImage) -> Seq<Seq<u8>> {
    fragment_commands_from(
        image,
        image_check(image)->Ok_0,
        ESC_POS_DEFAULT_IMAGE_FRAGMENT_HEIGHT_PX as nat,
        0,
    ) + seq![feed_before_cut(), full_cut()]
}

/// What a network printer is sent for `image` at `target`, in order, before anything is
/// connected: the target is checked first, then the image is encoded. Each element is one write.
pub fn printer_output_commands(target: &NetworkPrinterTarget, image: &RenderedReceiptImage) -> (r:
    Result<Vec<Vec<u8>>, InfraError>)
    ensures
        target.spec_check() matches Err(d) ==> r matches Err(e) && e@ == InfraErrorView::InvalidPrinterTarget(d),
        target.spec_check() is Ok ==> (fragment_commands_error(
            image,
            ESC_POS_DEFAULT_IMAGE_FRAGMENT_HEIGHT_PX,
        ) matches Some(x) ==> r matches Err(e) && e@ == InfraErrorView::EscPosEncoding(x)),
        r matches Ok(writes) ==> target.spec_check() is Ok && fragment_commands_error(
            image,
            ESC_POS_DEFAULT_IMAGE_FRAGMENT_HEIGHT_PX,
        ) is None && byte_vec_views(writes@) == printer_writes(image),
        r matches Err(e) ==> match target.spec_check() {
            Err(d) => e@ == InfraErrorView::InvalidPrinterTarget(d),
            Ok(()) => e matches InfraError::EscPosEncoding(x) && (fragment_commands_error(
                image,
                ESC_POS_DEFAULT_IMAGE_FRAGMENT_HEIGHT_PX,
            ) == Some(x) || fragments_allocation_failure(
                image,
                ESC_POS_DEFAULT_IMAGE_FRAGMENT_HEIGHT_PX as nat,
                x,
            )),
        },
{
    match target.validate() {
        Ok(()) => {},
        Err(e) => {
            return Err(InfraError::InvalidPrinterTarget(e));
        },
    }
    let mut writes = match gs_v0_raster_bit_image_commands(image) {
        Ok(commands) => commands,
        Err(e) => {
            return Err(InfraError::EscPosEncoding(e));
        },
    };
    let ghost raster = byte_vec_views(writes@);
    let feed = esc_d_feed_command(ESC_POS_DEFAULT_CUT_FEED_LINES);
    let cut = gs_v_cut_command();
    writes.push(vstd::slice::slice_to_vec(&feed));
    writes.push(vstd::slice::slice_to_vec(&cut));
    assert(byte_vec_views(writes@) =~= raster + seq![feed_before_cut(), full_cut()]);
    Ok(writes)
}

/// The rows a printer receives in write `i` of the `n` raster writes for an image `h` rows
/// high: 960, except for the last write, which holds the rest.
pub open spec fn sent_rows(h: nat, n: nat, i: nat) -> nat {
    if i + 1 < n {
        960
    } else {
        (h - 960 * (n - 1)) as nat
    }
}

/// Every row of an image reaches the printer: for an image `h` rows high there are
/// `⌈h / 960⌉` raster writes, write `i` is the command for the rows from `960 * i` (all 960 of
/// them but in the last write, which holds the rest, at least one row), and then come the feed
/// and the cut. Together the raster writes cover rows `0..h`, each once, in order.
pub proof fn lemma_printer_writes_send_every_row(image: &RenderedReceiptImage)
    requires
        image_check(image) is Ok,
    ensures
        ({
            let size = image_check(image)->Ok_0;
            let h = size.height_px as nat;
            let n = ((h + 959) / 960) as nat;
            &&& n >= 1
            &&& 0 < h - 960 * (n - 1) <= 960
            &&& printer_writes(image).len() == n + 2
            &&& forall|i: nat|
                i < n ==> #[trigger] printer_writes(image)[i as int] == rows_command(
                    image,
                    size,
                    960 * i,
                    sent_rows(h, n, i),
                )
            &&& printer_writes(image)[n as int] == feed_before_cut()
            &&& printer_writes(image)[n + 1int] == full_cut()
        }),
{
    let size = image_check(image)->Ok_0;
    let h = size.height_px as nat;
    let n = ((h + 959) / 960) as nat;
    assert(h > 0);
    lemma_fragment_layout(image, size, 960);
    let fragments = fragment_commands_from(image, size, 960, 0);
    assert(n >= 1 && 0 < h - 960 * (n - 1) <= 960) by (nonlinear_arith)
        requires
            h > 0,
            n == (h + 959) / 960,
    ;
    assert forall|i: nat| i < n implies #[trigger] printer_writes(image)[i as int] == rows_command(
        image,
        size,
        960 * i,
        sent_rows(h, n, i),
    ) by {
        assert(printer_writes(image)[i as int] == fragments[i as int]);
        assert(fragment_height(h, 960, i) == sent_rows(h, n, i)) by (nonlinear_arith)
            requires
                i < n,
                n >= 1,
                0 < h - 960 * (n - 1) <= 960,
                fragment_height(h, 960, i) == if h - i * 960 < 960 {
                    (h - i * 960) as nat
                } else {
                    960
                },
                sent_rows(h, n, i) == if i + 1 < n {
                    960
                } else {
                    (h - 960 * (n - 1)) as nat
                },
        ;
        assert((i * 960) as nat == 960 * i);
    }
}

} // verus!
