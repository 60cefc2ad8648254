use vstd::prelude::*;
use vstd::string::*;

use crate::file_names::{has_zip_extension, is_zip_name};

verus! {

/// Why a path was rejected as a source of images.
#[derive(Debug, PartialEq, Eq)]
pub enum PathError {
    /// The path exists but cannot be used; the message says why.
    InvalidPath(String),
    /// Probing or reading the path failed; the message carries the cause.
    IoError(String),
    /// The path is neither a directory nor a regular file.
    UnsupportedType(String),
    /// The path does not exist.
    NotFound(String),
}

/// Builds the uniform rejection message: the quoted path followed by a
/// reason.
fn path_message(path: &str, reason: &str) -> (m: String)
    ensures
        m@ == "パス '"@ + path@ + reason@,
{
    let mut m: String = String::from_str("パス '");
    m.append(path);
    m.append(reason);
    m
}

/// A path that has been checked to refer to an existing directory.
///
/// The checks themselves are file-system probes done by the caller; this
/// constructor turns their outcome into either the validated value or the
/// exact error the probe result calls for.
#[derive(Debug, PartialEq, Eq)]
pub struct DirectoryPath {
    pub path: String,
}

impl DirectoryPath {
    /// Accepts the path exactly when it exists and is a directory; otherwise
    /// reports which of the two checks failed, naming the path.
    pub fn new(path: String, exists: bool, is_dir: bool) -> (r: Result<DirectoryPath, PathError>)
        ensures
            !exists ==> (r matches Err(PathError::InvalidPath(m)) && m@ == "パス '"@ + path@
                + "' は存在しません。"@),
            exists && !is_dir ==> (r matches Err(PathError::InvalidPath(m)) && m@ == "パス '"@
                + path@ + "' はディレクトリではありません。"@),
            exists && is_dir ==> (r matches Ok(d) && d.path@ == path@),
    {
        if !exists {
            let m: String = path_message(path.as_str(), "' は存在しません。");
            return Err(PathError::InvalidPath(m));
        }
        if !is_dir {
            let m: String = path_message(path.as_str(), "' はディレクトリではありません。");
            return Err(PathError::InvalidPath(m));
        }
        Ok(DirectoryPath { path })
    }

    /// The validated path.
    pub fn as_path(&self) -> (r: &str)
        ensures
            r@ == self.path@,
    {
        self.path.as_str()
    }
}

/// A path that has been checked to refer to an existing file named like a
/// zip archive.
#[derive(Debug, PartialEq, Eq)]
pub struct ZipFilePath(String);

impl ZipFilePath {
    /// The validated path.
    pub closed spec fn spec_path(self) -> Seq<char> {
        self.0@
    }

    /// Accepts the path exactly when it exists, is a regular file, and its
    /// extension is `zip`; otherwise reports the first failing check, naming
    /// the path.
    pub fn new(path: String, exists: bool, is_file: bool) -> (r: Result<ZipFilePath, PathError>)
        ensures
            !exists ==> (r matches Err(PathError::InvalidPath(m)) && m@ == "パス '"@ + path@
                + "' は存在しません。"@),
            exists && !is_file ==> (r matches Err(PathError::InvalidPath(m)) && m@ == "パス '"@
                + path@ + "' はファイルではありません。"@),
            exists && is_file && !is_zip_name(path@) ==> (r matches Err(PathError::InvalidPath(m))
                && m@ == "パス '"@ + path@ + "' は.zipファイルではありません。"@),
            exists && is_file && is_zip_name(path@) ==> (r matches Ok(z) && z.spec_path()
                == path@),
    {
        if !exists {
            let m: String = path_message(path.as_str(), "' は存在しません。");
            return Err(PathError::InvalidPath(m));
        }
        if !is_file {
            let m: String = path_message(path.as_str(), "' はファイルではありません。");
            return Err(PathError::InvalidPath(m));
        }
        if !has_zip_extension(path.as_str()) {
            let m: String = path_message(path.as_str(), "' は.zipファイルではありません。");
            return Err(PathError::InvalidPath(m));
        }
        Ok(ZipFilePath(path))
    }

    /// The validated path.
    pub fn as_path(&self) -> (r: &str)
        ensures
            r@ == self.spec_path(),
    {
        self.0.as_str()
    }
}

/// What a file-system probe of a path reported: the caller asks the file
/// system once and hands the outcome in as a plain value.
#[derive(Debug, PartialEq, Eq)]
pub enum PathProbe {
    /// The path exists and is a directory.
    Directory,
    /// The path exists and is a regular file.
    File,
    /// The path exists but is neither.
    Other,
    /// The path does not exist.
    Missing,
    /// The probe itself failed; the message carries the cause.
    Failed(String),
}

/// A source of images: a directory of image files, or a zip archive of them.
#[derive(Debug, PartialEq, Eq)]
pub enum InputSource {
    Directory(DirectoryPath),
    ZipFile(ZipFilePath),
}

impl InputSource {
    /// Classifies a probed path as a directory source or a zip-archive
    /// source.
    ///
    /// A missing path and a failed probe are reported as such; an existing
    /// path that is neither a directory nor a regular file is unsupported;
    /// a regular file must be named like a zip archive.
    pub fn new(path: String, probe: PathProbe) -> (r: Result<InputSource, PathError>)
        ensures
            probe == PathProbe::Missing ==> (r matches Err(PathError::NotFound(p)) && p@
                == path@),
            probe matches PathProbe::Failed(m) ==> r matches Err(PathError::IoError(m2)) && m2@
                == m@,
            probe == PathProbe::Directory ==> (r matches Ok(InputSource::Directory(d)) && d.path@
                == path@),
            probe == PathProbe::File && is_zip_name(path@) ==> (r matches Ok(
                InputSource::ZipFile(z),
            ) && z.spec_path() == path@),
            probe == PathProbe::File && !is_zip_name(path@) ==> (r matches Err(
                PathError::InvalidPath(m),
            ) && m@ == "パス '"@ + path@ + "' は.zipファイルではありません。"@),
            probe == PathProbe::Other ==> (r matches Err(PathError::UnsupportedType(p)) && p@
                == path@),
    {
        match probe {
            PathProbe::Missing => Err(PathError::NotFound(path)),
            PathProbe::Failed(m) => Err(PathError::IoError(m)),
            PathProbe::Directory => {
                match DirectoryPath::new(path, true, true) {
                    Ok(d) => Ok(InputSource::Directory(d)),
                    Err(e) => Err(e),
                }
            },
            PathProbe::File => {
                match ZipFilePath::new(path, true, true) {
                    Ok(z) => Ok(InputSource::ZipFile(z)),
                    Err(e) => Err(e),
                }
            },
            PathProbe::Other => Err(PathError::UnsupportedType(path)),
        }
    }
}

} // verus!
