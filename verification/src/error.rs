use vstd::prelude::*;

verus! {

/// A failure of the metadata catalog: the identifier handed back for a fresh
/// record was unusable (it collided with one already in the catalog).
#[derive(Debug, Clone, Copy, PartialEq, Eq, Structural)]
pub enum DatabaseError {
    ObjectIdError,
}

/// The ways a file-handling request can fail, each mapped onto one HTTP
/// status code.
#[derive(Debug, Clone, Copy, PartialEq, Eq, Structural)]
pub enum FileHandlingError {
    /// The multipart payload had no `data` field, or that field lacked a
    /// filename or a declared content type.
    RequiredFieldNotFound,
    /// The declared content type is outside the allow-list.
    UnsupportedMediaType,
    /// A record with the same name is already in the catalog.
    FileExists,
    /// No record is known under the given identifier.
    FileNotFound,
    /// The catalog failed underneath the request.
    DatabaseError(DatabaseError),
}

impl DatabaseError {
    pub open spec fn spec_status_code(self) -> u16 {
        500
    }

    pub fn status_code(&self) -> (code: u16)
        ensures
            code == self.spec_status_code(),
    {
        500
    }
}

impl FileHandlingError {
    pub open spec fn spec_status_code(self) -> u16 {
        match self {
            FileHandlingError::RequiredFieldNotFound => 400,
            FileHandlingError::UnsupportedMediaType => 415,
            FileHandlingError::FileExists => 409,
            FileHandlingError::FileNotFound => 404,
            FileHandlingError::DatabaseError(_) => 500,
        }
    }

    pub fn status_code(&self) -> (code: u16)
        ensures
            code == self.spec_status_code(),
    {
        match self {
            FileHandlingError::RequiredFieldNotFound => 400,
            FileHandlingError::UnsupportedMediaType => 415,
            FileHandlingError::FileExists => 409,
            FileHandlingError::FileNotFound => 404,
            FileHandlingError::DatabaseError(_) => 500,
        }
    }
}

} // verus!
