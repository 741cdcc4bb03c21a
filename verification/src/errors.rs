//! The error values the core reports. Each carries the identifiers it is
//! about and renders a fixed human-readable message.

use vstd::prelude::*;
use vstd::string::StringExecFns;

verus! {

/// A file could not be used; carries the path and the underlying error text.
#[derive(Debug)]
pub struct FileError {
    pub path: String,
    pub inner: String,
}

impl FileError {
    pub fn new(path: String, err: String) -> (r: Self)
        ensures
            r.path == path,
            r.inner == err,
    {
        FileError { path, inner: err }
    }

    pub fn message(&self) -> (r: String)
        ensures
            r@ == "Unable to interact with file "@ + self.path@ + ": "@ + self.inner@,
    {
        String::from_str("Unable to interact with file ")
            .concat(self.path.as_str())
            .concat(": ")
            .concat(self.inner.as_str())
    }
}

/// A plugin was built against another interface version.
#[derive(Debug)]
pub struct ModuleABIError {
    pub name: String,
    pub version: String,
    pub expected: String,
}

impl ModuleABIError {
    pub fn new(name: String, version: String, expected: String) -> (r: Self)
        ensures
            r.name == name,
            r.version == version,
            r.expected == expected,
    {
        ModuleABIError { name, version, expected }
    }

    pub fn message(&self) -> (r: String)
        ensures
            r@ == "The module "@ + self.name@ + " implements ABI version "@ + self.version@
                + ". The core is built against "@ + self.expected@,
    {
        String::from_str("The module ")
            .concat(self.name.as_str())
            .concat(" implements ABI version ")
            .concat(self.version.as_str())
            .concat(". The core is built against ")
            .concat(self.expected.as_str())
    }
}

/// A plugin id that is not loaded was asked for.
#[derive(Debug)]
pub struct ModuleNotAvailableError {
    pub name: String,
}

impl ModuleNotAvailableError {
    pub fn new(name: String) -> (r: Self)
        ensures
            r.name == name,
    {
        ModuleNotAvailableError { name }
    }

    pub fn message(&self) -> (r: String)
        ensures
            r@ == "Attemt to find unloaded module: "@ + self.name@,
    {
        String::from_str("Attemt to find unloaded module: ").concat(self.name.as_str())
    }
}

/// A frontend named a provider that the item or the core does not have.
#[derive(Debug)]
pub struct ProvModuleNotAvailableError {
    pub name: String,
}

impl ProvModuleNotAvailableError {
    pub fn new(name: String) -> (r: Self)
        ensures
            r.name == name,
    {
        ProvModuleNotAvailableError { name }
    }

    pub fn message(&self) -> (r: String)
        ensures
            r@ == "The FE requested a module that was not available: "@ + self.name@,
    {
        String::from_str("The FE requested a module that was not available: ").concat(
            self.name.as_str(),
        )
    }
}

/// An item uuid that is not in the library was asked for.
#[derive(Debug)]
pub struct LibraryItemNotAvailableError {
    pub name: String,
}

impl LibraryItemNotAvailableError {
    pub fn new(name: &String) -> (r: Self)
        ensures
            r.name@ == name@,
    {
        LibraryItemNotAvailableError { name: name.clone() }
    }

    pub fn message(&self) -> (r: String)
        ensures
            r@ == "Attemt to find "@ + self.name@ + " in library was unsuccessful"@,
    {
        String::from_str("Attemt to find ").concat(self.name.as_str()).concat(
            " in library was unsuccessful",
        )
    }
}

/// A frontend name that is not connected was asked for.
#[derive(Debug)]
pub struct FrontendNotAvailableError {
    pub name: String,
}

impl FrontendNotAvailableError {
    pub fn new(name: &String) -> (r: Self)
        ensures
            r.name@ == name@,
    {
        FrontendNotAvailableError { name: name.clone() }
    }

    pub fn message(&self) -> (r: String)
        ensures
            r@ == "Attemt to find Frontend "@ + self.name@ + " was unsuccessful"@,
    {
        String::from_str("Attemt to find Frontend ").concat(self.name.as_str()).concat(
            " was unsuccessful",
        )
    }
}

/// A catch-all error with a message and an arbitrary payload.
#[derive(Debug)]
pub struct UnkownUtopiaError<T> {
    pub msg: String,
    pub custom: T,
}

impl<T> UnkownUtopiaError<T> {
    pub fn new(msg: String, custom: T) -> (r: Self)
        ensures
            r.msg == msg,
            r.custom == custom,
    {
        UnkownUtopiaError { msg, custom }
    }

    pub fn message(&self) -> (r: String)
        ensures
            r@ == "An error occured: "@ + self.msg@,
    {
        String::from_str("An error occured: ").concat(self.msg.as_str())
    }
}

} // verus!
