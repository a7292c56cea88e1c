use vstd::prelude::*;

verus! {

/// The response shapes that the client decodes.
#[derive(Clone, Copy, Debug, PartialEq, Eq, Structural)]
pub enum Shape {
    /// A listing of the jobs of the server or of a folder.
    JobListing,
    /// A listing of the builds of a job.
    BuildListing,
    /// The nodes of the server and their executors.
    NodeListing,
    /// The actions attached to a build.
    BuildActions,
    /// The parameters a build was started with.
    BuildParameters,
}

/// Why an operation of the client failed.
#[derive(Clone, Copy, Debug, PartialEq, Eq, Structural)]
pub enum ClientError {
    /// A job path without a usable segment.
    InvalidPath,
    /// A build selector that is neither a number nor a range of numbers.
    InvalidBuildSpec,
    /// A signal name that the server has no endpoint for.
    InvalidSignal,
    /// A name that may not hold a path separator holds one.
    InvalidName,
    /// An address that is no valid URI, or that names no host.
    InvalidUrl,
    /// The server could not be reached.
    ConnectionError,
    /// The server's answer broke the protocol.
    ProtocolError,
    /// The server answered that the resource does not exist.
    NotFound,
    /// A response body did not have the expected shape.
    DecodeError(Shape),
    /// Reading the response body failed midway.
    TransferError,
}

impl Shape {
    /// The name of the record type that the shape decodes to.
    pub fn name(&self) -> (s: String)
        ensures
            s@ == self.spec_name(),
    {
        match self {
            Shape::JobListing => "Info".to_string(),
            Shape::BuildListing => "BuildInfo".to_string(),
            Shape::NodeListing => "NodesInfo".to_string(),
            Shape::BuildActions => "ActionObj".to_string(),
            Shape::BuildParameters => "BuildParams".to_string(),
        }
    }

    pub open spec fn spec_name(&self) -> Seq<char> {
        match self {
            Shape::JobListing => "Info"@,
            Shape::BuildListing => "BuildInfo"@,
            Shape::NodeListing => "NodesInfo"@,
            Shape::BuildActions => "ActionObj"@,
            Shape::BuildParameters => "BuildParams"@,
        }
    }
}

} // verus!
