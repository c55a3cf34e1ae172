use smmdb::errors::{SaveError, Smm2Error, SmmError, SmmdbError};

#[test]
fn errors_convert_into_the_library_error() {
    assert!(matches!(
        SmmdbError::from(SmmError::GameStyleParse),
        SmmdbError::SmmError(SmmError::GameStyleParse)
    ));
    assert!(matches!(
        SmmdbError::from(Smm2Error::StringTooLong(80)),
        SmmdbError::Smm2Error(Smm2Error::StringTooLong(80))
    ));
    assert!(matches!(
        SmmdbError::from(SaveError::CourseNotFound(3)),
        SmmdbError::SaveError(SaveError::CourseNotFound(3))
    ));
    assert!(matches!(
        SmmdbError::from(hex::FromHexError::OddLength),
        SmmdbError::FromHex(hex::FromHexError::OddLength)
    ));
    assert!(matches!(
        SmmdbError::from(zip::result::ZipError::FileNotFound),
        SmmdbError::Zip(zip::result::ZipError::FileNotFound)
    ));
    let io = std::io::Error::new(std::io::ErrorKind::Other, "closed");
    assert!(matches!(SmmdbError::from(io), SmmdbError::IoError(_)));
}

#[test]
fn cloned_error_is_equal() {
    let error = Smm2Error::CmacMismatch { expected: vec![1, 2], got: vec![3] };
    assert_eq!(error.clone(), error);
    let date = Smm2Error::InvalidDate { year: 1, month: 2, day: 3, hour: 4, minute: 5 };
    assert_eq!(date.clone(), date);
    assert_eq!(SaveError::CorruptedCourse(error.clone()), SaveError::CorruptedCourse(error));
}
