//! Error kinds and their user-visible rendering.
//!
//! Every user-visible fault is a `{line, message}` detail. Scanner, syntax
//! and resolver faults are accumulated and reported as a batch under a
//! banner; a runtime fault is single and fatal.

use vstd::prelude::*;
use vstd::string::StringExecFns;
use crate::text::dec_digits;
use crate::text::u32_to_string;

verus! {

/// One fault: the source line it arose on and its message.
#[derive(Debug)]
pub struct ErrorDetail {
    line: u32,
    message: String,
}

/// Mathematical image of an `ErrorDetail`.
#[verifier::ext_equal]
pub struct ErrorDetailView {
    pub line: u32,
    pub message: Seq<char>,
}

impl View for ErrorDetail {
    type V = ErrorDetailView;

    closed spec fn view(&self) -> ErrorDetailView {
        ErrorDetailView { line: self.line, message: self.message@ }
    }
}

/// The four disjoint kinds of fault.
#[derive(Debug)]
pub enum Error {
    ScannerErrors(Vec<ErrorDetail>),
    SyntaxErrors(Vec<ErrorDetail>),
    ResolverErrors(Vec<ErrorDetail>),
    RuntimeError(ErrorDetail),
}

/// Mathematical image of an `Error`.
#[verifier::ext_equal]
pub enum ErrorView {
    ScannerErrors(Seq<ErrorDetailView>),
    SyntaxErrors(Seq<ErrorDetailView>),
    ResolverErrors(Seq<ErrorDetailView>),
    RuntimeError(ErrorDetailView),
}

/// The images of a list of details.
pub open spec fn details_view(ds: Seq<ErrorDetail>) -> Seq<ErrorDetailView> {
    ds.map_values(|d: ErrorDetail| d@)
}

impl View for Error {
    type V = ErrorView;

    open spec fn view(&self) -> ErrorView {
        match self {
            Error::ScannerErrors(ds) => ErrorView::ScannerErrors(details_view(ds@)),
            Error::SyntaxErrors(ds) => ErrorView::SyntaxErrors(details_view(ds@)),
            Error::ResolverErrors(ds) => ErrorView::ResolverErrors(details_view(ds@)),
            Error::RuntimeError(d) => ErrorView::RuntimeError(d@),
        }
    }
}

/// `[ line N ] : MESSAGE`
pub open spec fn render_detail(d: ErrorDetailView) -> Seq<char> {
    "[ line "@ + dec_digits(d.line as nat) + " ] : "@ + d.message
}

/// Each detail on a line of its own.
pub open spec fn render_details(ds: Seq<ErrorDetailView>) -> Seq<char>
    decreases ds.len(),
{
    if ds.len() == 0 {
        Seq::<char>::empty()
    } else {
        render_details(ds.drop_last()) + render_detail(ds.last()) + "\n"@
    }
}

/// The banner a batch of faults is grouped under.
pub open spec fn banner(e: ErrorView) -> Seq<char> {
    match e {
        ErrorView::ScannerErrors(_) => "Scanner error(s):"@,
        ErrorView::SyntaxErrors(_) => "Syntax error(s):"@,
        ErrorView::ResolverErrors(_) => "Resolver error(s):"@,
        ErrorView::RuntimeError(_) => "Runtime error: "@,
    }
}

/// The full rendering of an error: banner, then one line per detail; a
/// runtime fault renders on the banner's own line.
pub open spec fn render_error(e: ErrorView) -> Seq<char> {
    match e {
        ErrorView::ScannerErrors(ds) => banner(e) + "\n"@ + render_details(ds),
        ErrorView::SyntaxErrors(ds) => banner(e) + "\n"@ + render_details(ds),
        ErrorView::ResolverErrors(ds) => banner(e) + "\n"@ + render_details(ds),
        ErrorView::RuntimeError(d) => banner(e) + render_detail(d) + "\n"@,
    }
}

impl ErrorDetail {
    pub fn new(line: u32, message: &str) -> (r: Self)
        ensures
            r@.line == line,
            r@.message == message@,
    {
        Self { line, message: String::from_str(message) }
    }

    /// As `new`, for a message already owned.
    pub fn from_string(line: u32, message: String) -> (r: Self)
        ensures
            r@.line == line,
            r@.message == message@,
    {
        Self { line, message }
    }

    pub fn line(&self) -> (r: u32)
        ensures
            r == self@.line,
    {
        self.line
    }

    /// Renders the detail as `[ line N ] : MESSAGE`.
    pub fn render(&self) -> (r: String)
        ensures
            r@ == render_detail(self@),
    {
        let mut out = String::from_str("[ line ");
        let num = u32_to_string(self.line);
        out.append(num.as_str());
        out.append(" ] : ");
        out.append(self.message.as_str());
        proof {
            assert(out@ =~= render_detail(self@));
        }
        out
    }
}

fn render_detail_lines(out: &mut String, ds: &Vec<ErrorDetail>)
    ensures
        final(out)@ == old(out)@ + render_details(details_view(ds@)),
{
    let mut i: usize = 0;
    while i < ds.len()
        invariant
            i <= ds.len(),
            out@ == old(out)@ + render_details(details_view(ds@).take(i as int)),
        decreases ds.len() - i,
    {
        let line = ds[i].render();
        out.append(line.as_str());
        out.append("\n");
        proof {
            let dsv = details_view(ds@);
            assert(dsv.take(i + 1).drop_last() =~= dsv.take(i as int));
            assert(dsv.take(i + 1).last() == dsv[i as int]);
            assert(out@ =~= old(out)@ + render_details(dsv.take(i + 1)));
        }
        i = i + 1;
    }
    proof {
        assert(details_view(ds@).take(ds@.len() as int) =~= details_view(ds@));
    }
}

impl Error {
    /// Renders the error with its banner, one detail per line.
    pub fn render(&self) -> (r: String)
        ensures
            r@ == render_error(self@),
    {
        match self {
            Error::ScannerErrors(ds) => {
                let mut out = String::from_str("Scanner error(s):");
                out.append("\n");
                render_detail_lines(&mut out, ds);
                proof {
                    assert(out@ =~= render_error(self@));
                }
                out
            }
            Error::SyntaxErrors(ds) => {
                let mut out = String::from_str("Syntax error(s):");
                out.append("\n");
                render_detail_lines(&mut out, ds);
                proof {
                    assert(out@ =~= render_error(self@));
                }
                out
            }
            Error::ResolverErrors(ds) => {
                let mut out = String::from_str("Resolver error(s):");
                out.append("\n");
                render_detail_lines(&mut out, ds);
                proof {
                    assert(out@ =~= render_error(self@));
                }
                out
            }
            Error::RuntimeError(d) => {
                let mut out = String::from_str("Runtime error: ");
                let line = d.render();
                out.append(line.as_str());
                out.append("\n");
                proof {
                    assert(out@ =~= render_error(self@));
                }
                out
            }
        }
    }
}

} // verus!
