//! What can go wrong when a configuration is loaded.

use vstd::prelude::*;


verus! {

#[allow(inconsistent_fields)]
#[derive(Clone, Debug)]
pub enum SnapshotError<S = String> {
    UrlCannotBeBase,
    MissingObject(S),
    MissingField(S),
    UnknownActiveExtruder(S),
    InvalidKinematicsGeometry { backend: S, reason: S },
    UnsupportedSchema(u32),
    FingerprintMismatch { expected: S, actual: S },
    StaleRuntimeCache,
    OfflineAbsolutePath(S),
    OfflineOutsideRoot { path: S, root: S },
    OfflineMissingInclude { pattern: S, source_file: S },
    OfflineAmbiguousInclude { pattern: S, source_file: S, first: S, second: S },
    OfflineRecursiveInclude(S),
    OfflineParse { path: S, line: usize, message: S },
    OfflineMissingOption { section: S, option: S },
    OfflineValue { section: S, option: S, value: S, message: S },
    OfflineExtruderSequence(S),
}

impl View for SnapshotError {
    type V = SnapshotError<Seq<char>>;

    open spec fn view(&self) -> SnapshotError<Seq<char>> {
        match *self {
            SnapshotError::UrlCannotBeBase => SnapshotError::UrlCannotBeBase,
            SnapshotError::MissingObject(a) => SnapshotError::MissingObject(a@),
            SnapshotError::MissingField(a) => SnapshotError::MissingField(a@),
            SnapshotError::UnknownActiveExtruder(a) => SnapshotError::UnknownActiveExtruder(a@),
            SnapshotError::InvalidKinematicsGeometry { backend, reason } =>
                SnapshotError::InvalidKinematicsGeometry { backend: backend@, reason: reason@ },
            SnapshotError::UnsupportedSchema(v) => SnapshotError::UnsupportedSchema(v),
            SnapshotError::FingerprintMismatch { expected, actual } =>
                SnapshotError::FingerprintMismatch { expected: expected@, actual: actual@ },
            SnapshotError::StaleRuntimeCache => SnapshotError::StaleRuntimeCache,
            SnapshotError::OfflineAbsolutePath(a) => SnapshotError::OfflineAbsolutePath(a@),
            SnapshotError::OfflineOutsideRoot { path, root } => SnapshotError::OfflineOutsideRoot {
                path: path@,
                root: root@,
            },
            SnapshotError::OfflineMissingInclude { pattern, source_file } =>
                SnapshotError::OfflineMissingInclude {
                pattern: pattern@,
                source_file: source_file@,
            },
            SnapshotError::OfflineAmbiguousInclude { pattern, source_file, first, second } =>
                SnapshotError::OfflineAmbiguousInclude {
                pattern: pattern@,
                source_file: source_file@,
                first: first@,
                second: second@,
            },
            SnapshotError::OfflineRecursiveInclude(a) => SnapshotError::OfflineRecursiveInclude(a@),
            SnapshotError::OfflineParse { path, line, message } => SnapshotError::OfflineParse {
                path: path@,
                line,
                message: message@,
            },
            SnapshotError::OfflineMissingOption { section, option } =>
                SnapshotError::OfflineMissingOption { section: section@, option: option@ },
            SnapshotError::OfflineValue { section, option, value, message } =>
                SnapshotError::OfflineValue {
                section: section@,
                option: option@,
                value: value@,
                message: message@,
            },
            SnapshotError::OfflineExtruderSequence(a) => SnapshotError::OfflineExtruderSequence(a@),
        }
    }
}

/// What a fallible step results in.
pub type Outcome<T> = Result<T, SnapshotError<Seq<char>>>;

/// The outcome of a step whose value is its own view.
pub open spec fn outcome<T>(r: Result<T, SnapshotError>) -> Outcome<T> {
    match r {
        Ok(v) => Ok(v),
        Err(e) => Err(e@),
    }
}

/// The outcome of a step, with the view of its value.
pub open spec fn deep_outcome<T: DeepView>(r: Result<T, SnapshotError>) -> Outcome<T::V> {
    match r {
        Ok(v) => Ok(v.deep_view()),
        Err(e) => Err(e@),
    }
}

} // verus!
