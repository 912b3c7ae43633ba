use vstd::prelude::*;

verus! {

/// Where the HTTP server listens and where it serves static files from.
#[derive(Debug)]
pub struct HttpParams {
    pub host: String,
    pub port: u16,
    pub static_path: String,
}

impl Clone for HttpParams {
    fn clone(&self) -> (r: Self)
        ensures
            r == *self,
    {
        HttpParams {
            host: self.host.clone(),
            port: self.port,
            static_path: self.static_path.clone(),
        }
    }
}

impl Default for HttpParams {
    /// The out-of-the-box parameters: the loopback host, port 2201, and the
    /// `static` directory.
    fn default() -> (r: Self)
        ensures
            r.host@ == "127.0.0.1"@,
            r.port == 2201,
            r.static_path@ == "static"@,
    {
        HttpParams {
            host: "127.0.0.1".to_owned(),
            port: 2201,
            static_path: "static".to_owned(),
        }
    }
}

/// A parameter the builder refused: an empty host, or port zero.
#[derive(Debug, PartialEq, Eq, Structural)]
pub enum HttpParamsError {
    InvalidHost,
    InvalidPort,
}

/// Builds [`HttpParams`], starting from the defaults and validating each
/// field as it is set.
pub struct HttpParamsBuilder {
    params: HttpParams,
}

impl HttpParamsBuilder {
    /// The parameters as configured so far.
    pub closed spec fn current(&self) -> HttpParams {
        self.params
    }

    /// A builder holding the default parameters.
    pub fn new() -> (r: Self)
        ensures
            r.current().host@ == "127.0.0.1"@,
            r.current().port == 2201,
            r.current().static_path@ == "static"@,
    {
        HttpParamsBuilder { params: HttpParams::default() }
    }

    /// Sets the host. An empty host is refused and leaves the builder
    /// unchanged.
    pub fn host(&mut self, host: String) -> (r: Result<(), HttpParamsError>)
        ensures
            host@.len() == 0 ==> r == Result::<(), HttpParamsError>::Err(
                HttpParamsError::InvalidHost,
            ) && *final(self) == *old(self),
            host@.len() > 0 ==> r is Ok && final(self).current() == (HttpParams {
                host: host,
                ..old(self).current()
            }),
    {
        if host.as_str().is_empty() {
            return Err(HttpParamsError::InvalidHost);
        }
        self.params.host = host;
        Ok(())
    }

    /// Sets the port. Port zero is refused and leaves the builder unchanged.
    pub fn port(&mut self, port: u16) -> (r: Result<(), HttpParamsError>)
        ensures
            port == 0 ==> r == Result::<(), HttpParamsError>::Err(HttpParamsError::InvalidPort)
                && *final(self) == *old(self),
            port != 0 ==> r is Ok && final(self).current() == (HttpParams {
                port: port,
                ..old(self).current()
            }),
    {
        if port == 0 {
            return Err(HttpParamsError::InvalidPort);
        }
        self.params.port = port;
        Ok(())
    }

    /// Sets the static file directory. Any path is accepted.
    pub fn static_path(&mut self, path: String) -> (r: Result<(), HttpParamsError>)
        ensures
            r is Ok,
            final(self).current() == (HttpParams { static_path: path, ..old(self).current() }),
    {
        self.params.static_path = path;
        Ok(())
    }

    /// The parameters configured so far. Never fails.
    pub fn build(&self) -> (r: Result<HttpParams, HttpParamsError>)
        ensures
            r == Result::<HttpParams, HttpParamsError>::Ok(self.current()),
    {
        Ok(self.params.clone())
    }
}

} // verus!
