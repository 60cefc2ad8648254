use images_to_pdf::input_source::{
    DirectoryPath, InputSource, PathError, PathProbe, ZipFilePath,
};

#[test]
fn test_valid_directory_path() {
    let result = DirectoryPath::new("some_dir".to_string(), true, true);

    assert!(result.is_ok());

    let dir_path_instance = result.unwrap();
    assert_eq!(dir_path_instance.as_path(), "some_dir");
}

#[test]
fn test_non_existent_path_returns_error() {
    let path = "this_directory_should_not_exist".to_string();
    let result = DirectoryPath::new(path, false, false);

    assert!(result.is_err());

    let err = result.unwrap_err();
    if let PathError::InvalidPath(msg) = err {
        assert!(msg.contains("存在しません"));
    } else {
        panic!("予期せぬエラーが返されました: {:?}", err);
    }
}

#[test]
fn test_file_path_returns_error() {
    let file_path = "Cargo.toml".to_string();
    let result = DirectoryPath::new(file_path, true, false);

    assert!(result.is_err());

    let err = result.unwrap_err();
    if let PathError::InvalidPath(msg) = err {
        assert!(msg.contains("ディレクトリではありません"));
    } else {
        panic!("予期せぬエラーが返されました: {:?}", err);
    }
}

#[test]
fn test_new_with_valid_directory() {
    let result = InputSource::new("collection_dir".to_string(), PathProbe::Directory);

    assert!(result.is_ok());
    assert!(matches!(result.unwrap(), InputSource::Directory(_)));
}

#[test]
fn test_new_with_valid_zip_file() {
    let result = InputSource::new("archive.zip".to_string(), PathProbe::File);

    assert!(result.is_ok());
    assert!(matches!(result.unwrap(), InputSource::ZipFile(_)));
}

#[test]
fn test_new_with_non_existent_path() {
    let path = "/path/that/definitely/does/not/exist".to_string();

    let result = InputSource::new(path, PathProbe::Missing);

    assert!(result.is_err());
    assert!(matches!(result.unwrap_err(), PathError::NotFound(_)));
}

#[test]
fn test_new_with_regular_file_not_zip() {
    let result = InputSource::new("notes.txt".to_string(), PathProbe::File);

    assert!(result.is_err());
}

#[test]
fn test_new_with_unsupported_path_kind() {
    let result = InputSource::new("a_socket".to_string(), PathProbe::Other);
    assert!(matches!(result.unwrap_err(), PathError::UnsupportedType(_)));
}

#[test]
fn test_new_with_failed_probe() {
    let result = InputSource::new(
        "guarded".to_string(),
        PathProbe::Failed("permission denied".to_string()),
    );
    match result.unwrap_err() {
        PathError::IoError(msg) => assert_eq!(msg, "permission denied"),
        other => panic!("予期せぬエラーが返されました: {:?}", other),
    }
}

#[test]
fn test_new_invalid_extension() {
    let res = ZipFilePath::new("not_a_zip_1.txt".to_string(), true, true);
    assert!(res.is_err());
    if let Err(PathError::InvalidPath(msg)) = res {
        assert!(msg.contains("は.zipファイルではありません。"));
    } else {
        panic!("Expected InvalidPath error for wrong extension");
    }
}

#[test]
fn test_new_nonexistent() {
    let res = ZipFilePath::new("nonexistent_file_for_test.zip".to_string(), false, false);
    assert!(res.is_err());
    if let Err(PathError::InvalidPath(msg)) = res {
        assert!(msg.contains("は存在しません。"));
    } else {
        panic!("Expected InvalidPath error for nonexistent file");
    }
}

#[test]
fn test_new_not_a_file() {
    let res = ZipFilePath::new("some_dir.zip".to_string(), true, false);
    assert!(res.is_err());
    if let Err(PathError::InvalidPath(msg)) = res {
        assert!(msg.contains("はファイルではありません。"));
    } else {
        panic!("Expected InvalidPath error for a non-file path");
    }
}

#[test]
fn test_uppercase_zip_extension_is_rejected() {
    let res = ZipFilePath::new("archive.ZIP".to_string(), true, true);
    assert!(matches!(res, Err(PathError::InvalidPath(_))));
}

#[test]
fn test_as_path_returns_original_path() {
    let zfp = ZipFilePath::new("file.zip".to_string(), true, true)
        .expect("ZipFilePath::new should succeed");
    assert_eq!(zfp.as_path(), "file.zip");
}

#[test]
fn test_error_message_quotes_the_path() {
    let res = DirectoryPath::new("somewhere/else".to_string(), false, false);
    if let Err(PathError::InvalidPath(msg)) = res {
        assert_eq!(msg, "パス 'somewhere/else' は存在しません。");
    } else {
        panic!("Expected InvalidPath error");
    }
}
