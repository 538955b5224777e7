use vstd::prelude::*;

verus! {

/// Errors that stop the application.
#[derive(Debug, Clone, PartialEq, Eq)]
pub enum AppError {
    Config(ConfigError),
    WaylandConnect { message: String },
    WaylandDispatch { context: &'static str, message: String },
    EventLoop { context: &'static str, message: String },
    MissingProtocol { protocol: &'static str },
    NoOutputs,
    NoSelectedOutputs,
    OutputNotFound { name: String },
    BufferAllocation { message: String },
    UnsupportedBufferFormat { raw: u32 },
    CaptureFailed { output: String },
    RuntimeState { message: String },
}

/// Errors in the command line configuration.
#[derive(Debug, Clone, PartialEq, Eq)]
pub enum ConfigError {
    InvalidCloseKey { value: String },
    InvalidZoom { value: String },
    InvalidFps { value: String },
}

impl AppError {
    /// The display connection failed; `message` is the rendered cause.
    pub fn connect(message: String) -> (err: Self)
        ensures
            err == (AppError::WaylandConnect { message }),
    {
        AppError::WaylandConnect { message }
    }

    /// Dispatching protocol events failed during `context`.
    pub fn dispatch(context: &'static str, message: String) -> (err: Self)
        ensures
            err == (AppError::WaylandDispatch { context, message }),
    {
        AppError::WaylandDispatch { context, message }
    }

    /// A required global is not advertised by the compositor.
    pub fn missing_protocol(protocol: &'static str) -> (err: Self)
        ensures
            err == (AppError::MissingProtocol { protocol }),
    {
        AppError::MissingProtocol { protocol }
    }

    /// Managing the event loop failed during `context`.
    pub fn event_loop(context: &'static str, message: String) -> (err: Self)
        ensures
            err == (AppError::EventLoop { context, message }),
    {
        AppError::EventLoop { context, message }
    }

    /// Allocating a shared-memory buffer failed.
    pub fn buffer_allocation(message: String) -> (err: Self)
        ensures
            err == (AppError::BufferAllocation { message }),
    {
        AppError::BufferAllocation { message }
    }

    /// Any other runtime failure.
    pub fn runtime(message: String) -> (err: Self)
        ensures
            err == (AppError::RuntimeState { message }),
    {
        AppError::RuntimeState { message }
    }
}

} // verus!
