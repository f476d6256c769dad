//! The health check.

use vstd::prelude::*;

verus! {

/// Why the service is not healthy.
#[derive(Debug, Clone, Copy, PartialEq, Eq, Structural)]
pub enum HealthCheckError {
    DatabaseUnavailable,
}

impl HealthCheckError {
    /// The HTTP status that reports this error: 503.
    pub fn status_code(&self) -> (res: u16)
        ensures
            res == 503,
    {
        503
    }

    /// The text that reports this error.
    pub fn message(&self) -> (res: &'static str)
        ensures
            res@ == "database unavailable"@,
    {
        "database unavailable"
    }
}

/// Reports the service as healthy exactly if the database answered the test
/// query.
pub fn health_check(database_test: Result<(), ()>) -> (res: Result<&'static str, HealthCheckError>)
    ensures
        res is Ok <==> database_test is Ok,
        res matches Ok(text) ==> text@ == "healthy"@,
        res matches Err(e) ==> e == HealthCheckError::DatabaseUnavailable,
{
    if database_test.is_err() {
        return Err(HealthCheckError::DatabaseUnavailable);
    }
    Ok("healthy")
}

} // verus!
