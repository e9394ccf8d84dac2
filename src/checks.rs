use vstd::prelude::*;

verus! {

/// Succeeds when the file at `path` exists, as `exists` reports; otherwise
/// the error says which file is missing.
pub fn assert_file_exists(path: &String, exists: bool) -> (r: Result<(), String>)
    ensures
        r is Ok <==> exists,
        r matches Err(m) ==> m@ == "file "@ + path@ + " does not exist"@,
{
    if exists {
        Ok(())
    } else {
        Err(String::from_str("file ").concat(path.as_str()).concat(" does not exist"))
    }
}

/// Whether a permission mode lets someone execute the file.
pub open spec fn is_executable_mode(mode: u32) -> bool {
    mode & 0o111u32 != 0
}

/// Succeeds when the permission bits `mode` of the file at `path` let its
/// owner, its group or anyone else execute it.
pub fn assert_file_is_executable(path: &String, mode: u32) -> (r: Result<(), String>)
    ensures
        r is Ok <==> is_executable_mode(mode),
        r matches Err(m) ==> m@ == "file "@ + path@ + " is not executable"@,
{
    if mode & 0o111 != 0 {
        Ok(())
    } else {
        Err(String::from_str("file ").concat(path.as_str()).concat(" is not executable"))
    }
}

} // verus!
