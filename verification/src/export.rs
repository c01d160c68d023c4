//! Export entry point: choosing a document export format from a file
//! extension or an explicit format name, and building export preferences
//! from command-line style arguments.

use vstd::prelude::*;
use vstd::string::StringExecFns;
use vstd::string::StringSliceAdditionalSpecFns;

verus! {

/// A document export format the engine can produce.
#[derive(Clone, Copy, PartialEq, Eq, Structural, Debug)]
pub enum DocExportFormat {
    Svg,
    Xopp,
    Pdf,
}

impl DocExportFormat {
    /// The file extension written for this format.
    pub fn file_ext(&self) -> (r: &'static str)
        ensures
            *self == DocExportFormat::Svg ==> r@ == "svg"@,
            *self == DocExportFormat::Xopp ==> r@ == "xopp"@,
            *self == DocExportFormat::Pdf ==> r@ == "pdf"@,
    {
        match self {
            DocExportFormat::Svg => "svg",
            DocExportFormat::Xopp => "xopp",
            DocExportFormat::Pdf => "pdf",
        }
    }
}

/// Preferences of one document export.
#[derive(Clone, Copy, PartialEq, Eq, Structural, Debug)]
pub struct DocExportPrefs {
    pub export_format: DocExportFormat,
    pub with_background: bool,
    pub with_pattern: bool,
}

impl Default for DocExportPrefs {
    /// SVG, with background and pattern.
    fn default() -> (r: DocExportPrefs)
        ensures
            r == (DocExportPrefs {
                export_format: DocExportFormat::Svg,
                with_background: true,
                with_pattern: true,
            }),
    {
        DocExportPrefs {
            export_format: DocExportFormat::Svg,
            with_background: true,
            with_pattern: true,
        }
    }
}

/// Why export preferences could not be built from the arguments.
#[derive(Clone, Copy, PartialEq, Eq, Structural, Debug)]
pub enum ExportPrefsError {
    /// The extension or format name names no supported export format.
    UnsupportedExtension,
    /// The output file name has no extension to take the format from.
    NoFileExtension,
    /// An output file and an output format were both given; they are
    /// mutually exclusive.
    ConflictingArguments,
    /// Neither an output file nor an output format was given; one of the
    /// two is required.
    MissingArgument,
}

impl ExportPrefsError {
    /// The user-facing description of the error; `detail` is the
    /// extension or format name the rejected arguments carried, quoted by
    /// the unsupported-extension case and ignored by the others.
    pub fn message(&self, detail: &str) -> (r: String)
        ensures
            *self == ExportPrefsError::UnsupportedExtension ==> r@
                == "Could not create doc export prefs, unsupported export file extension `"@
                + detail@ + "`"@,
            *self == ExportPrefsError::NoFileExtension ==> r@
                == "Output file needs to have an extension to determine the file type"@,
            *self == ExportPrefsError::ConflictingArguments ==> r@
                == "--output-file and --output-format are mutually exclusive."@,
            *self == ExportPrefsError::MissingArgument ==> r@
                == "--output-file or --output-format is required."@,
    {
        match self {
            ExportPrefsError::UnsupportedExtension => {
                let mut s = String::from_str(
                    "Could not create doc export prefs, unsupported export file extension `",
                );
                s.append(detail);
                s.append("`");
                s
            }
            ExportPrefsError::NoFileExtension => String::from_str(
                "Output file needs to have an extension to determine the file type",
            ),
            ExportPrefsError::ConflictingArguments => String::from_str(
                "--output-file and --output-format are mutually exclusive.",
            ),
            ExportPrefsError::MissingArgument => String::from_str(
                "--output-file or --output-format is required.",
            ),
        }
    }
}

/// The last position of `c` in `b`, if any.
pub open spec fn rfind(b: Seq<u8>, c: u8) -> Option<int>
    decreases b.len(),
{
    if b.len() == 0 {
        Option::None
    } else if b.last() == c {
        Option::Some(b.len() - 1)
    } else {
        rfind(b.drop_last(), c)
    }
}

/// The name with any trailing path separators removed.
pub open spec fn strip_trailing_separators(b: Seq<u8>) -> Seq<u8>
    decreases b.len(),
{
    if b.len() > 0 && b.last() == 47u8 {
        strip_trailing_separators(b.drop_last())
    } else {
        b
    }
}

/// The extension of a file name, UTF-8 encoded: after dropping trailing
/// path separators, the bytes after the last dot of the final path
/// component; none when that component has no dot or begins with its
/// only dot (a hidden file).
pub open spec fn extension_of(raw: Seq<u8>) -> Option<Seq<u8>> {
    let b = strip_trailing_separators(raw);
    let comp_start = (match rfind(b, 47u8) {
        Option::Some(i) => i + 1,
        Option::None => 0int,
    });
    let comp = b.subrange(comp_start, b.len() as int);
    match rfind(comp, 46u8) {
        Option::None => Option::None,
        Option::Some(j) => if j == 0 {
            Option::None
        } else {
            Option::Some(comp.subrange(j + 1, comp.len() as int))
        },
    }
}

/// Byte-for-byte equality of two slices.
fn bytes_eq(a: &[u8], b: &[u8]) -> (r: bool)
    ensures
        r <==> a@ == b@,
{
    let n: usize = a.len();
    if n != b.len() {
        proof {
            assert(a@.len() != b@.len());
        }
        return false;
    }
    let mut i: usize = 0;
    while i < n
        invariant
            n == a@.len(),
            n == b@.len(),
            i <= n,
            forall|j: int| 0 <= j < i ==> a@[j] == b@[j],
        decreases n - i,
    {
        if *vstd::slice::slice_index_get(a, i) != *vstd::slice::slice_index_get(b, i) {
            return false;
        }
        i += 1;
    }
    proof {
        assert(a@ =~= b@);
    }
    true
}

/// The export format of an extension given as UTF-8 bytes.
pub open spec fn format_of_ext(e: Seq<u8>) -> Result<DocExportFormat, ExportPrefsError> {
    if e == "svg".spec_bytes() {
        Ok(DocExportFormat::Svg)
    } else if e == "xopp".spec_bytes() {
        Ok(DocExportFormat::Xopp)
    } else if e == "pdf".spec_bytes() {
        Ok(DocExportFormat::Pdf)
    } else {
        Err(ExportPrefsError::UnsupportedExtension)
    }
}

fn export_format_from_ext_bytes(ext: &[u8]) -> (r: Result<DocExportFormat, ExportPrefsError>)
    ensures
        r == format_of_ext(ext@),
{
    if bytes_eq(ext, "svg".as_bytes()) {
        Ok(DocExportFormat::Svg)
    } else if bytes_eq(ext, "xopp".as_bytes()) {
        Ok(DocExportFormat::Xopp)
    } else if bytes_eq(ext, "pdf".as_bytes()) {
        Ok(DocExportFormat::Pdf)
    } else {
        Err(ExportPrefsError::UnsupportedExtension)
    }
}

/// Chooses the export format named by `format`: `svg`, `xopp` or `pdf`;
/// anything else is an unsupported extension.
pub fn get_export_format(format: &str) -> (r: Result<DocExportFormat, ExportPrefsError>)
    ensures
        r == Ok::<DocExportFormat, ExportPrefsError>(DocExportFormat::Svg) <==> format@ == "svg"@,
        r == Ok::<DocExportFormat, ExportPrefsError>(DocExportFormat::Xopp) <==> format@ == "xopp"@,
        r == Ok::<DocExportFormat, ExportPrefsError>(DocExportFormat::Pdf) <==> format@ == "pdf"@,
        r is Err ==> r == Err::<DocExportFormat, ExportPrefsError>(
            ExportPrefsError::UnsupportedExtension),
    {
    proof {
        reveal_strlit("svg");
        reveal_strlit("xopp");
        reveal_strlit("pdf");
        vstd::utf8::encode_utf8_decode_utf8(format@);
        vstd::utf8::encode_utf8_decode_utf8("svg"@);
        vstd::utf8::encode_utf8_decode_utf8("xopp"@);
        vstd::utf8::encode_utf8_decode_utf8("pdf"@);
    }
    export_format_from_ext_bytes(format.as_bytes())
}

/// What the argument combination yields: a conflict or a missing argument
/// is rejected; a file name must carry a supported extension; an explicit
/// format name must itself be supported; the background and pattern
/// switches override the defaults where given.
pub open spec fn prefs_from_args(
    output_file: Option<Seq<u8>>,
    output_format: Option<Seq<u8>>,
    with_background: Option<bool>,
    with_pattern: Option<bool>,
) -> Result<DocExportPrefs, ExportPrefsError> {
    match (output_file, output_format) {
        (Option::Some(_), Option::Some(_)) => Err(ExportPrefsError::ConflictingArguments),
        (Option::None, Option::None) => Err(ExportPrefsError::MissingArgument),
        (Option::Some(f), Option::None) => match extension_of(f) {
            Option::None => Err(ExportPrefsError::NoFileExtension),
            Option::Some(e) => match format_of_ext(e) {
                Err(err) => Err(err),
                Ok(fmt) => Ok(DocExportPrefs {
                    export_format: fmt,
                    with_background: (match with_background {
                        Option::Some(v) => v,
                        Option::None => true,
                    }),
                    with_pattern: (match with_pattern {
                        Option::Some(v) => v,
                        Option::None => true,
                    }),
                }),
            },
        },
        (Option::None, Option::Some(e)) => match format_of_ext(e) {
            Err(err) => Err(err),
            Ok(fmt) => Ok(DocExportPrefs {
                export_format: fmt,
                with_background: (match with_background {
                    Option::Some(v) => v,
                    Option::None => true,
                }),
                with_pattern: (match with_pattern {
                    Option::Some(v) => v,
                    Option::None => true,
                }),
            }),
        },
    }
}

/// The extension of `name`, as owned bytes.
#[verifier::rlimit(60)]
fn extension_bytes(name: &str) -> (r: Option<Vec<u8>>)
    ensures
        r is Some <==> extension_of(name.spec_bytes()) is Some,
        r matches Some(v) ==> extension_of(name.spec_bytes()) matches Some(e) && v@ == e,
{
    let b: &[u8] = name.as_bytes();
    let mut end: usize = b.len();
    proof {
        assert(b@.subrange(0, b@.len() as int) =~= b@);
    }
    while end > 0 && *vstd::slice::slice_index_get(b, end - 1) == 47
        invariant
            end <= b@.len(),
            strip_trailing_separators(b@) == strip_trailing_separators(
                b@.subrange(0, end as int)),
        decreases end,
    {
        proof {
            assert(b@.subrange(0, end as int).drop_last() =~= b@.subrange(0, end - 1));
        }
        end -= 1;
    }
    let n: usize = end;
    let ghost stripped = strip_trailing_separators(name.spec_bytes());
    proof {
        assert(stripped == b@.subrange(0, n as int));
    }
    let mut last_slash: Option<usize> = None;
    let mut i: usize = 0;
    while i < n
        invariant
            n <= b@.len(),
            stripped == b@.subrange(0, n as int),
            i <= n,
            (match last_slash {
                Option::Some(a) => a < i && rfind(b@.subrange(0, i as int), 47u8)
                    == Option::Some(a as int),
                Option::None => rfind(b@.subrange(0, i as int), 47u8) is None,
            }),
        decreases n - i,
    {
        proof {
            assert(b@.subrange(0, i + 1).drop_last() =~= b@.subrange(0, i as int));
        }
        if *vstd::slice::slice_index_get(b, i) == 47 {
            last_slash = Some(i);
        }
        i += 1;
    }
    let comp_start: usize = match last_slash {
        Some(a) => a + 1,
        None => 0,
    };
    let ghost comp = b@.subrange(comp_start as int, n as int);
    proof {
        assert(stripped.subrange(comp_start as int, stripped.len() as int) =~= comp);
    }
    let mut last_dot: Option<usize> = None;
    let mut j: usize = comp_start;
    while j < n
        invariant
            n <= b@.len(),
            comp_start <= j <= n,
            comp == b@.subrange(comp_start as int, n as int),
            (match last_dot {
                Option::Some(a) => comp_start <= a && a < j && rfind(b@.subrange(
                    comp_start as int, j as int), 46u8) == Option::Some(a - comp_start),
                Option::None => rfind(b@.subrange(comp_start as int, j as int), 46u8) is None,
            }),
        decreases n - j,
    {
        proof {
            assert(b@.subrange(comp_start as int, j + 1).drop_last() =~= b@.subrange(
                comp_start as int, j as int));
        }
        if *vstd::slice::slice_index_get(b, j) == 46 {
            last_dot = Some(j);
        }
        j += 1;
    }
    match last_dot {
        None => None,
        Some(a) => {
            if a == comp_start {
                None
            } else {
                let mut v: Vec<u8> = Vec::new();
                let mut p: usize = a + 1;
                while p < n
                    invariant
                        n <= b@.len(),
                        a + 1 <= p <= n,
                        v@ == b@.subrange(a + 1, p as int),
                    decreases n - p,
                {
                    v.push(*vstd::slice::slice_index_get(b, p));
                    proof {
                        assert(b@.subrange(a + 1, p + 1) =~= b@.subrange(a + 1, p as int)
                            + seq![b@[p as int]]);
                    }
                    p += 1;
                }
                proof {
                    assert(comp.subrange(a - comp_start + 1, comp.len() as int) =~= b@.subrange(
                        a + 1, n as int));
                }
                Some(v)
            }
        }
    }
}

/// Builds export preferences from command-line style arguments: exactly
/// one of `output_file` and `output_format` must be given; the format
/// comes from the file name's extension or the explicit format name; the
/// two switches override the defaults where given.
pub fn create_doc_export_prefs_from_args(
    output_file: Option<&str>,
    output_format: Option<&str>,
    with_background: Option<bool>,
    with_pattern: Option<bool>,
) -> (r: Result<DocExportPrefs, ExportPrefsError>)
    ensures
        r == prefs_from_args(
            (match output_file {
                Option::Some(f) => Option::Some(f.spec_bytes()),
                Option::None => Option::None,
            }),
            (match output_format {
                Option::Some(f) => Option::Some(f.spec_bytes()),
                Option::None => Option::None,
            }),
            with_background,
            with_pattern,
        ),
{
    let format = match (output_file, output_format) {
        (Some(_), Some(_)) => {
            return Err(ExportPrefsError::ConflictingArguments);
        }
        (None, None) => {
            return Err(ExportPrefsError::MissingArgument);
        }
        (Some(file), None) => {
            match extension_bytes(file) {
                None => {
                    return Err(ExportPrefsError::NoFileExtension);
                }
                Some(ext) => export_format_from_ext_bytes(ext.as_slice()),
            }
        }
        (None, Some(out_format)) => export_format_from_ext_bytes(out_format.as_bytes()),
    };
    match format {
        Err(e) => Err(e),
        Ok(fmt) => {
            let mut prefs = DocExportPrefs::default();
            prefs.export_format = fmt;
            match with_background {
                Some(v) => prefs.with_background = v,
                None => {}
            }
            match with_pattern {
                Some(v) => prefs.with_pattern = v,
                None => {}
            }
            Ok(prefs)
        }
    }
}

} // verus!
