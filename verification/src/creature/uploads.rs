//! Files that creatures put in the public storage of the node.
use vstd::prelude::*;

use crate::clock::{is_generated_id, new_id};
use crate::outside::{base64_bytes, base64_decode};
use crate::text::{join2, trim, trimmed};

verus! {

broadcast use vstd::string::group_string_axioms;

/// The size of the largest file.
pub const MAX_UPLOAD: usize = 10485760;

/// A file to be stored, and its content type.
pub struct Upload {
    pub data: Vec<u8>,
    pub content_type: String,
}

/// A file to be stored, as bytes and a text.
pub struct UploadState {
    pub data: Seq<u8>,
    pub content_type: Seq<char>,
}

impl View for Upload {
    type V = UploadState;

    open spec fn view(&self) -> UploadState {
        UploadState { data: self.data@, content_type: self.content_type@ }
    }
}

/// The content type of a file: the stated one, or that of plain bytes.
pub open spec fn upload_type(stated: Seq<char>) -> Seq<char> {
    if trimmed(stated).len() == 0 {
        "application/octet-stream"@
    } else {
        trimmed(stated)
    }
}

/// The file that an upload stores; `decoded` is what its data decodes to.
pub open spec fn uploaded(
    owner: Seq<char>,
    decoded: Result<Seq<u8>, Seq<char>>,
    stated: Seq<char>,
) -> Result<UploadState, Seq<char>> {
    if owner.len() == 0 {
        Err("not authenticated"@)
    } else {
        match decoded {
            Err(_) => Err("dataBase64 is not valid base64"@),
            Ok(data) => if data.len() == 0 {
                Err("empty file"@)
            } else if data.len() > MAX_UPLOAD {
                Err("file too large (max 10485760 bytes)"@)
            } else {
                Ok(UploadState { data, content_type: upload_type(stated) })
            },
        }
    }
}

/// Check an upload whose data was decoded.
pub fn upload_decoded(owner: &str, decoded: Result<Vec<u8>, String>, stated: &str) -> (r: Result<
    Upload,
    String,
>)
    ensures
        match r {
            Ok(upload) => uploaded(
                owner@,
                match decoded {
                    Ok(b) => Ok(b@),
                    Err(e) => Err(e@),
                },
                stated@,
            ) == Ok::<UploadState, Seq<char>>(upload@),
            Err(e) => uploaded(
                owner@,
                match decoded {
                    Ok(b) => Ok(b@),
                    Err(e) => Err(e@),
                },
                stated@,
            ) == Err::<UploadState, Seq<char>>(e@),
        },
{
    if owner.is_empty() {
        return Err("not authenticated".to_owned());
    }
    let data = match decoded {
        Ok(data) => data,
        Err(_) => {
            return Err("dataBase64 is not valid base64".to_owned());
        },
    };
    if data.len() == 0 {
        return Err("empty file".to_owned());
    }
    if data.len() > MAX_UPLOAD {
        return Err("file too large (max 10485760 bytes)".to_owned());
    }
    let kind = trim(stated);
    let content_type: String = if kind.is_empty() {
        "application/octet-stream".to_owned()
    } else {
        kind.to_owned()
    };
    Ok(Upload { data, content_type })
}

/// Check an upload.
pub fn storage_upload(owner: &str, data_base64: &str, stated: &str) -> (r: Result<Upload, String>)
    ensures
        match r {
            Ok(upload) => uploaded(owner@, base64_bytes(trimmed(data_base64@)), stated@) == Ok::<
                UploadState,
                Seq<char>,
            >(upload@),
            Err(e) => uploaded(owner@, base64_bytes(trimmed(data_base64@)), stated@) == Err::<
                UploadState,
                Seq<char>,
            >(e@),
        },
{
    upload_decoded(owner, base64_decode(trim(data_base64)), stated)
}

/// Check an upload and give the file that it stores a name.
pub fn place_upload(owner: &str, data_base64: &str, stated: &str) -> (r: Result<
    (String, Upload),
    String,
>)
    ensures
        match r {
            Ok((id, upload)) => is_generated_id(id@) && uploaded(
                owner@,
                base64_bytes(trimmed(data_base64@)),
                stated@,
            ) == Ok::<UploadState, Seq<char>>(upload@),
            Err(e) => uploaded(owner@, base64_bytes(trimmed(data_base64@)), stated@) == Err::<
                UploadState,
                Seq<char>,
            >(e@),
        },
{
    match storage_upload(owner, data_base64, stated) {
        Ok(upload) => Ok((new_id(), upload)),
        Err(e) => Err(e),
    }
}

/// The name of the file that holds the content type of a file.
pub fn type_sidecar(id: &str) -> (r: String)
    ensures
        r@ == id@ + ".type"@,
{
    join2(id, ".type")
}

/// The name of the file that holds the owner of a file.
pub fn owner_sidecar(id: &str) -> (r: String)
    ensures
        r@ == id@ + ".owner"@,
{
    join2(id, ".owner")
}

} // verus!
