use playback_status::lastfm::GeneralError;
use playback_status::unaligned_u16::error::{AlignmentError, BadByteLength};

const KNOWN: [(u8, GeneralError, &str); 13] = [
    (2, GeneralError::InvalidService, "invalid service"),
    (3, GeneralError::InvalidMethod, "invalid method"),
    (4, GeneralError::AuthenticationFailure, "authentication failed"),
    (6, GeneralError::MissingParameter, "missing required parameter"),
    (7, GeneralError::InvalidResource, "invalid resource specified"),
    (8, GeneralError::UnknownError, "unknown error"),
    (9, GeneralError::InvalidSessionKey, "session key is invalid"),
    (10, GeneralError::InvalidApiKey, "api key is invalid"),
    (11, GeneralError::ServiceOffline, "service is offline"),
    (13, GeneralError::InvalidSignature, "invalid method signature"),
    (16, GeneralError::TemporaryError, "a temporary error occurred"),
    (26, GeneralError::SuspendedApiKey, "client suspended"),
    (29, GeneralError::RatelimitExceeded, "ratelimit exceeded"),
];

#[test]
fn known_codes_decode_to_their_errors() {
    for (code, error, message) in KNOWN {
        assert_eq!(GeneralError::try_from(code), Ok(error));
        assert_eq!(GeneralError::from_code(code as u64), error);
        assert_eq!(error.code(), code as u64);
        assert_eq!(error.to_string(), message);
    }
}

#[test]
fn every_code_decodes() {
    for code in 0..=255u8 {
        let known = KNOWN.iter().find(|(k, _, _)| *k == code);
        let decoded = GeneralError::try_from(code);
        match known {
            Some((_, error, _)) => assert_eq!(decoded, Ok(*error)),
            None => assert_eq!(decoded, Ok(GeneralError::UnknownCause(code as u64))),
        }
        assert_eq!(decoded.unwrap().code(), code as u64);
    }
}

#[test]
fn unrecognized_code_is_an_unknown_cause() {
    assert_eq!(GeneralError::try_from(99), Ok(GeneralError::UnknownCause(99)));
    assert_eq!(GeneralError::from_code(99), GeneralError::UnknownCause(99));
    assert_ne!(GeneralError::from_code(99), GeneralError::UnknownError);
    assert_eq!(GeneralError::from_code(99).to_string(), "unknown cause");
    assert_eq!(GeneralError::from_code(99).code(), 99);
    assert_eq!(GeneralError::try_from(0), Ok(GeneralError::UnknownCause(0)));
    assert_eq!(GeneralError::try_from(1), Ok(GeneralError::UnknownCause(1)));
    assert_eq!(GeneralError::try_from(5), Ok(GeneralError::UnknownCause(5)));
    assert_eq!(GeneralError::try_from(255), Ok(GeneralError::UnknownCause(255)));
    // 258 is 2 in its lowest byte, and still no known error.
    assert_eq!(GeneralError::from_code(258), GeneralError::UnknownCause(258));
    assert_eq!(GeneralError::from_code(u64::MAX), GeneralError::UnknownCause(u64::MAX));
    // The service's own "unknown error" is a known error, not an unknown cause.
    assert_eq!(GeneralError::from_code(8), GeneralError::UnknownError);
    assert_eq!(GeneralError::try_from(8), Ok(GeneralError::UnknownError));
}

#[test]
fn slice_errors_say_what_went_wrong() {
    assert_eq!(BadByteLength.to_string(), "byte length must be a multiple of two");
    assert_eq!(AlignmentError.to_string(), "slice is not correctly aligned");
}
