use vstd::prelude::*;

verus! {

/// Where the project initializer puts static files and the database.
#[derive(Debug)]
pub struct InitParams {
    pub static_path: String,
    pub database_path: String,
}

impl Clone for InitParams {
    fn clone(&self) -> (r: Self)
        ensures
            r == *self,
    {
        InitParams {
            static_path: self.static_path.clone(),
            database_path: self.database_path.clone(),
        }
    }
}

impl Default for InitParams {
    /// The out-of-the-box parameters: the `static` directory and the
    /// `poster.db` database file.
    fn default() -> (r: Self)
        ensures
            r.static_path@ == "static"@,
            r.database_path@ == "poster.db"@,
    {
        InitParams { static_path: "static".to_owned(), database_path: "poster.db".to_owned() }
    }
}

/// The initializer's builder refuses nothing, so no operation ever produces
/// this error; it only fills the error position of the builder's results.
#[derive(Debug)]
pub enum InitParamsError {
    Unreachable,
}

/// Builds [`InitParams`], starting from the defaults.
pub struct InitParamsBuilder {
    params: InitParams,
}

impl InitParamsBuilder {
    /// The parameters as configured so far.
    pub closed spec fn current(&self) -> InitParams {
        self.params
    }

    /// A builder holding the default parameters.
    pub fn new() -> (r: Self)
        ensures
            r.current().static_path@ == "static"@,
            r.current().database_path@ == "poster.db"@,
    {
        InitParamsBuilder { params: InitParams::default() }
    }

    /// Sets the static file directory. Any path is accepted.
    pub fn static_path(&mut self, path: String) -> (r: Result<(), InitParamsError>)
        ensures
            r is Ok,
            final(self).current() == (InitParams { static_path: path, ..old(self).current() }),
    {
        self.params.static_path = path;
        Ok(())
    }

    /// Sets the database file path. Any path is accepted.
    pub fn database_path(&mut self, path: String) -> (r: Result<(), InitParamsError>)
        ensures
            r is Ok,
            final(self).current() == (InitParams { database_path: path, ..old(self).current() }),
    {
        self.params.database_path = path;
        Ok(())
    }

    /// The parameters configured so far. Never fails.
    pub fn build(&self) -> (r: Result<InitParams, InitParamsError>)
        ensures
            r == Result::<InitParams, InitParamsError>::Ok(self.current()),
    {
        Ok(self.params.clone())
    }
}

} // verus!
