//! The data carried by an exam sheet's QR code, and its checks against the
//! exam's metadata.

use vstd::prelude::*;

verus! {

/// What the QR code of a scanned sheet decodes to.
#[derive(Debug)]
pub struct QRData {
    /// Hash of the exam the sheet belongs to.
    pub hash: Vec<u8>,
    /// Identifier of the exam.
    pub id: u64,
    /// Page number of the sheet, counted from 1.
    pub page: u8,
}

/// What the scanner expects of every sheet of one exam.
#[derive(Debug)]
pub struct ExamMetadata {
    /// Hash of the exam.
    pub hash: Vec<u8>,
    /// Identifier of the exam.
    pub id: u64,
    /// Number of pages of the exam.
    pub pages: u8,
}

/// The outcome of each check of a QR payload against the metadata.
#[derive(Clone, Copy, Debug, PartialEq, Eq, Structural)]
pub struct QrFindings {
    /// The payload's hash equals the exam's hash.
    pub hash_matches: bool,
    /// The payload's identifier equals the exam's identifier.
    pub id_matches: bool,
    /// The payload's page lies in `1..=pages`.
    pub page_in_range: bool,
}

impl QrFindings {
    /// Every check passed.
    pub open spec fn all_pass(self) -> bool {
        self.hash_matches && self.id_matches && self.page_in_range
    }
}

/// The findings that `check_qr_data` reports for a payload.
pub open spec fn qr_findings(meta: &ExamMetadata, qr: &QRData) -> QrFindings {
    QrFindings {
        hash_matches: meta.hash@ == qr.hash@,
        id_matches: meta.id == qr.id,
        page_in_range: 1 <= qr.page <= meta.pages,
    }
}

/// Each finding holds exactly when its check passes: the hashes are equal
/// byte for byte, the exam identifiers are equal, and the page lies in
/// `1..=pages`.
pub proof fn law_qr_findings(meta: &ExamMetadata, qr: &QRData)
    ensures
        qr_findings(meta, qr).hash_matches <==> qr.hash@ == meta.hash@,
        qr_findings(meta, qr).id_matches <==> qr.id == meta.id,
        qr_findings(meta, qr).page_in_range <==> 1 <= qr.page <= meta.pages,
{
}

/// A payload passes exactly when it carries the exam's hash and identifier
/// and a page of the exam; a payload with any other identifier, any other
/// hash, page 0 or a page past the last is refused.
pub proof fn law_qr_accepts_only_the_exam(meta: &ExamMetadata, qr: &QRData)
    ensures
        qr_findings(meta, qr).all_pass() <==> (qr.hash@ == meta.hash@ && qr.id == meta.id && 1
            <= qr.page <= meta.pages),
        qr.id != meta.id ==> !qr_findings(meta, qr).all_pass(),
        qr.page == 0 ==> !qr_findings(meta, qr).all_pass(),
{
}

/// Byte-wise equality of two byte vectors.
pub fn bytes_equal(a: &Vec<u8>, b: &Vec<u8>) -> (r: bool)
    ensures
        r == (a@ == b@),
{
    if a.len() != b.len() {
        return false;
    }
    let n = a.len();
    for i in 0..n
        invariant
            n == a@.len(),
            n == b@.len(),
            forall|j: int| 0 <= j < i ==> a@[j] == b@[j],
    {
        if a[i] != b[i] {
            return false;
        }
    }
    assert(a@ =~= b@);
    true
}

/// Runs each check of a QR payload against the exam metadata.
pub fn inspect_qr_data(meta: &ExamMetadata, qr: &QRData) -> (f: QrFindings)
    ensures
        f == qr_findings(meta, qr),
        f.hash_matches <==> qr.hash@ == meta.hash@,
        f.id_matches <==> qr.id == meta.id,
        f.page_in_range <==> 1 <= qr.page <= meta.pages,
{
    QrFindings {
        hash_matches: bytes_equal(&meta.hash, &qr.hash),
        id_matches: meta.id == qr.id,
        page_in_range: !(meta.pages < qr.page || qr.page == 0),
    }
}

/// Accepts a QR payload when its hash and identifier are the exam's and its
/// page lies in `1..=pages`; gives the payload back unchanged then, and
/// otherwise the findings of every check.
pub fn check_qr_data(meta: &ExamMetadata, qr: QRData) -> (r: Result<QRData, QrFindings>)
    ensures
        r is Ok <==> (qr.hash@ == meta.hash@ && qr.id == meta.id && 1 <= qr.page <= meta.pages),
        r is Ok <==> qr_findings(meta, &qr).all_pass(),
        r matches Ok(d) ==> d == qr,
        r matches Err(f) ==> f == qr_findings(meta, &qr),
{
    let f = inspect_qr_data(meta, &qr);
    if f.hash_matches && f.id_matches && f.page_in_range {
        Ok(qr)
    } else {
        Err(f)
    }
}

} // verus!
