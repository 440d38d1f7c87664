//! Reading slide parts out of a PPTX package held in memory, through the
//! `zip` crate, one entry at a time.
use vstd::prelude::*;
use crate::slides::{order_slides, push_slide_block, slide_order, slides_from_xml, views};
use crate::text::{string_from_chars, to_chars};
use crate::scanner::extract_text_from_xml;

verus! {

#[verifier::external_type_specification]
#[verifier::external_body]
#[verifier::reject_recursive_types(R)]
pub struct ExZipArchive<R>(zip::ZipArchive<R>);

#[verifier::external_type_specification]
#[verifier::external_body]
#[verifier::reject_recursive_types(T)]
pub struct ExCursor<T>(std::io::Cursor<T>);

/// A package opened over its bytes in memory.
pub type Package = zip::ZipArchive<std::io::Cursor<Vec<u8>>>;

/// The bytes a package was opened on.
pub uninterp spec fn package_bytes(a: zip::ZipArchive<std::io::Cursor<Vec<u8>>>) -> Seq<u8>;

/// Whether `bytes` open as a ZIP archive.
pub uninterp spec fn zip_opens(bytes: Seq<u8>) -> bool;

/// The entry names of the ZIP archive `bytes`, in central-directory order.
pub uninterp spec fn zip_entry_names(bytes: Seq<u8>) -> Seq<Seq<char>>;

/// The entry `name` of the ZIP archive `bytes`, decompressed, when it exists
/// and is UTF-8 text.
pub uninterp spec fn zip_entry_text(bytes: Seq<u8>, name: Seq<char>) -> Option<Seq<char>>;

/// Why extracting text from a package failed.
pub enum ExtractError {
    /// The bytes are not a ZIP archive the reader accepts.
    InvalidArchive(String),
    /// A slide entry could not be read or is not UTF-8.
    EntryRead(String),
}

/// Relies on `zip::ZipArchive::new` over a `std::io::Cursor`: opens the
/// archive by its central directory, or reports why it cannot. Whether it
/// opens depends on the bytes alone.
#[verifier::external_body]
fn open_package(bytes: Vec<u8>) -> (r: Result<Package, String>)
    ensures
        r is Ok <==> zip_opens(bytes@),
        r matches Ok(a) ==> package_bytes(a) == bytes@,
{
    zip::ZipArchive::new(std::io::Cursor::new(bytes)).map_err(|e| e.to_string())
}

/// Relies on `zip::ZipArchive::file_names`: every entry name, without
/// reading any entry body.
#[verifier::external_body]
fn entry_names(a: &Package) -> (r: Vec<String>)
    ensures
        views(r@) == zip_entry_names(package_bytes(*a)),
{
    a.file_names().map(String::from).collect()
}

/// Relies on `zip::ZipArchive::by_name` and `std::io::Read::read_to_string`
/// on the entry it returns: the decompressed entry as UTF-8 text, or why it
/// could not be read. The entry is found by the central directory, so the
/// result depends on the bytes and the name alone, and the bytes stay as
/// they were.
#[verifier::external_body]
fn read_entry_text(a: &mut Package, name: &str) -> (r: Result<String, String>)
    ensures
        package_bytes(*final(a)) == package_bytes(*old(a)),
        r is Ok <==> zip_entry_text(package_bytes(*old(a)), name@) is Some,
        r matches Ok(x) ==> zip_entry_text(package_bytes(*old(a)), name@) == Some(x@),
{
    let mut file = a.by_name(name).map_err(|e| e.to_string())?;
    let mut xml = String::new();
    std::io::Read::read_to_string(&mut file, &mut xml).map_err(|e| e.to_string())?;
    Ok(xml)
}

/// The contents of the entries `names` of the archive `bytes`, or `None`
/// when one of them cannot be read.
pub open spec fn read_parts(bytes: Seq<u8>, names: Seq<Seq<char>>) -> Option<Seq<Seq<char>>>
    decreases names.len(),
{
    if names.len() == 0 {
        Some(Seq::empty())
    } else {
        match read_parts(bytes, names.drop_last()) {
            Some(p) => match zip_entry_text(bytes, names.last()) {
                Some(x) => Some(p.push(x)),
                None => None,
            },
            None => None,
        }
    }
}

/// The slide parts of the archive `bytes`, read in slide order.
pub open spec fn slide_parts(bytes: Seq<u8>) -> Option<Seq<Seq<char>>> {
    read_parts(bytes, slide_order(zip_entry_names(bytes)))
}

/// The text of the PPTX package `bytes`, or `None` when it cannot be had.
pub open spec fn pptx_text(bytes: Seq<u8>) -> Option<Seq<char>> {
    if !zip_opens(bytes) {
        None
    } else {
        match slide_parts(bytes) {
            Some(xmls) => Some(slides_from_xml(xmls)),
            None => None,
        }
    }
}

proof fn lemma_read_parts_failure_extends(bytes: Seq<u8>, names: Seq<Seq<char>>, i: int)
    requires
        0 <= i <= names.len(),
        read_parts(bytes, names.take(i)) is None,
    ensures
        read_parts(bytes, names) is None,
    decreases names.len() - i,
{
    if i < names.len() {
        assert(names.take(i + 1).drop_last() =~= names.take(i));
        lemma_read_parts_failure_extends(bytes, names, i + 1);
    } else {
        assert(names.take(i) =~= names);
    }
}

/// Reads the slide parts of `a` in slide order, one at a time, and joins
/// their texts; the first entry that cannot be read fails the whole call.
/// The package must come from opening its bytes, as `extract_pptx_text`
/// does: the contract speaks of the bytes it was opened on.
pub fn collect_package_text(a: &mut Package) -> (r: Result<String, ExtractError>)
    ensures
        package_bytes(*final(a)) == package_bytes(*old(a)),
        match slide_parts(package_bytes(*old(a))) {
            Some(xmls) => (r matches Ok(t) && t@ == slides_from_xml(xmls)),
            None => (r matches Err(e) && e is EntryRead),
        },
{
    let ghost src = package_bytes(*a);
    let names = entry_names(a);
    let slides = order_slides(&names);
    let ghost order = slide_order(zip_entry_names(src));
    let mut out: Vec<char> = Vec::new();
    let mut shown: usize = 0;
    let ghost mut xmls: Seq<Seq<char>> = Seq::empty();
    let mut i: usize = 0;
    assert(order.take(0) =~= Seq::<Seq<char>>::empty());
    while i < slides.len()
        invariant
            i <= slides.len(),
            shown <= i,
            xmls.len() == i,
            src == package_bytes(*old(a)),
            package_bytes(*a) == src,
            views(slides@) == order,
            order == slide_order(zip_entry_names(src)),
            read_parts(src, order.take(i as int)) == Some(xmls),
            out@ == slides_from_xml(xmls),
            shown == crate::slides::count_shown(
                xmls.map_values(|x: Seq<char>| crate::scanner::slide_xml_text(x)),
            ),
        decreases slides.len() - i,
    {
        assert(order.take(i + 1).drop_last() =~= order.take(i as int));
        assert(order.take(i + 1).last() == slides@[i as int]@);
        let xml = match read_entry_text(a, slides[i].as_str()) {
            Ok(x) => x,
            Err(msg) => {
                proof {
                    lemma_read_parts_failure_extends(src, order, i + 1);
                }
                return Err(ExtractError::EntryRead(msg));
            },
        };
        let t = extract_text_from_xml(xml.as_str());
        let tc = to_chars(t.as_str());
        let ghost next = xmls.push(xml@);
        assert(next.map_values(|x: Seq<char>| crate::scanner::slide_xml_text(x)).drop_last()
            =~= xmls.map_values(|x: Seq<char>| crate::scanner::slide_xml_text(x)));
        push_slide_block(&mut out, &mut shown, &tc);
        proof {
            xmls = next;
        }
        i = i + 1;
    }
    assert(order.take(slides.len() as int) =~= order);
    Ok(string_from_chars(&out))
}

/// Extracts the text of every slide of the PPTX package `bytes`: the text
/// of its slide parts in slide order, or why it cannot be had.
pub fn extract_pptx_text(bytes: Vec<u8>) -> (r: Result<String, ExtractError>)
    ensures
        r is Ok <==> pptx_text(bytes@) is Some,
        r matches Ok(t) ==> pptx_text(bytes@) == Some(t@),
        !zip_opens(bytes@) ==> (r matches Err(e) && e is InvalidArchive),
        zip_opens(bytes@) && r is Err ==> (r matches Err(e) && e is EntryRead),
{
    let ghost src = bytes@;
    let mut a = match open_package(bytes) {
        Ok(a) => a,
        Err(msg) => {
            return Err(ExtractError::InvalidArchive(msg));
        },
    };
    collect_package_text(&mut a)
}

/// Extraction depends on the package's bytes alone: running it twice on the
/// same bytes gives the same outcome.
pub proof fn lemma_extraction_repeatable(b1: Seq<u8>, b2: Seq<u8>)
    requires
        b1 == b2,
    ensures
        pptx_text(b1) == pptx_text(b2),
        slide_parts(b1) == slide_parts(b2),
{
}

} // verus!
