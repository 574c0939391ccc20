//! What one log source is configured with.

use vstd::prelude::*;
use crate::{Applicatiton, ApplicatitonView};

verus! {

/// One log source: the directory and name pattern of its files, the
/// identity it publishes under and the relay server it reports to.
#[derive(Debug, Clone)]
pub struct LogConfiguration {
    pub application: Applicatiton,
    pub log_file_dir: String,
    pub log_file_name_regex: String,
    pub server_host: String,
    pub server_port: i16,
    pub server_path: String,
    pub channel_buffer: usize,
}

/// Mathematical value of a [`LogConfiguration`].
pub struct LogConfigurationView {
    pub application: ApplicatitonView,
    pub log_file_dir: Seq<char>,
    pub log_file_name_regex: Seq<char>,
    pub server_host: Seq<char>,
    pub server_port: i16,
    pub server_path: Seq<char>,
    pub channel_buffer: usize,
}

impl View for LogConfiguration {
    type V = LogConfigurationView;

    open spec fn view(&self) -> LogConfigurationView {
        LogConfigurationView {
            application: self.application@,
            log_file_dir: self.log_file_dir@,
            log_file_name_regex: self.log_file_name_regex@,
            server_host: self.server_host@,
            server_port: self.server_port,
            server_path: self.server_path@,
            channel_buffer: self.channel_buffer,
        }
    }
}

impl LogConfiguration {
    pub fn new(
        application: Applicatiton,
        log_file_dir: String,
        log_file_name_regex: String,
        server_host: String,
        server_port: i16,
        server_path: String,
        channel_buffer: usize,
    ) -> (config: Self)
        ensures
            config@ == (LogConfigurationView {
                application: application@,
                log_file_dir: log_file_dir@,
                log_file_name_regex: log_file_name_regex@,
                server_host: server_host@,
                server_port,
                server_path: server_path@,
                channel_buffer,
            }),
    {
        LogConfiguration {
            application,
            log_file_dir,
            log_file_name_regex,
            server_host,
            server_port,
            server_path,
            channel_buffer,
        }
    }

    pub fn get_application(&self) -> (application: Applicatiton)
        ensures
            application@ == self@.application,
    {
        self.application.duplicate()
    }

    pub fn get_log_file_dir(&self) -> (dir: String)
        ensures
            dir@ == self@.log_file_dir,
    {
        self.log_file_dir.clone()
    }

    pub fn get_log_file_name_regex(&self) -> (regex: String)
        ensures
            regex@ == self@.log_file_name_regex,
    {
        self.log_file_name_regex.clone()
    }

    pub fn get_server_host(&self) -> (host: String)
        ensures
            host@ == self@.server_host,
    {
        self.server_host.clone()
    }

    pub fn get_server_port(&self) -> (port: i16)
        ensures
            port == self@.server_port,
    {
        self.server_port
    }

    pub fn get_server_path(&self) -> (path: String)
        ensures
            path@ == self@.server_path,
    {
        self.server_path.clone()
    }

    pub fn get_channel_buffer(&self) -> (buffer: usize)
        ensures
            buffer == self@.channel_buffer,
    {
        self.channel_buffer
    }
}

/// The log sources of one client.
#[derive(Debug)]
pub struct ClientConfiguration {
    pub configurations: Vec<LogConfiguration>,
}

impl ClientConfiguration {
    pub fn new(configurations: Vec<LogConfiguration>) -> (client: Self)
        ensures
            client.configurations == configurations,
    {
        ClientConfiguration { configurations }
    }

    pub fn get_configurations(self) -> (configurations: Vec<LogConfiguration>)
        ensures
            configurations == self.configurations,
    {
        self.configurations
    }
}

} // verus!
