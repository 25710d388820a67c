//! The bot's side of the cluster: the handles on the namespace where
//! challenges run, and the descriptions of what it asks the cluster for.
use vstd::prelude::*;
use kube::{Api, Client};
use k8s_openapi::api::batch::v1::Job;
use crate::models::User;

verus! {

#[verifier::external_type_specification]
#[verifier::external_body]
pub struct ExClient(Client);

#[verifier::external_type_specification]
#[verifier::external_body]
#[verifier::reject_recursive_types(K)]
pub struct ExApi<K>(Api<K>);

#[verifier::external_type_specification]
#[verifier::external_body]
pub struct ExPod(k8s_openapi::api::core::v1::Pod);

#[verifier::external_type_specification]
#[verifier::external_body]
pub struct ExJob(Job);

/// The handles on the pods and jobs of the challenge namespace.
pub struct Resources {
    pub pods: Api<k8s_openapi::api::core::v1::Pod>,
    pub jobs: Api<Job>,
}

/// What `kube::Api::namespaced` gives, called through `client` for the pods
/// and for the jobs of namespace `ns`.
pub uninterp spec fn namespace_handles(client: Client, ns: Seq<char>) -> Resources;

/// `kube::Api::namespaced` for pods and for jobs: handles on the pods and the
/// jobs of namespace `ns`, through `client` (the pod handle through a clone of
/// it, which shares the connection). The kube source builds each handle from
/// the client, the namespace and the kind alone; what a handle holds is left
/// to the name `namespace_handles`.
#[verifier::external_body]
fn handles_in(client: Client, ns: &str) -> (r: Resources)
    ensures
        r == namespace_handles(client, ns@),
{
    Resources { pods: Api::namespaced(client.clone(), ns), jobs: Api::namespaced(client, ns) }
}

enum State {
    Nready,
    Ready(Resources),
}

/// Why a request to the cluster could not be made or did not succeed.
pub enum ControlError {
    /// The controller has not been connected to the cluster.
    NotReady,
    /// The cluster refused the job.
    JobCreation,
    /// The cluster did not delete the job.
    JobDeletion,
    /// No shell could be attached in the pod.
    Attach,
    /// The attached shell has no input stream.
    NoInputStream,
    /// The attached shell has no output stream.
    NoOutputStream,
    /// The job's pod could not be found once the job was ready.
    PodNotFound,
}

impl ControlError {
    /// The text shown for the error.
    pub fn message(&self) -> (r: String)
        ensures
            r@ == match self {
                ControlError::NotReady => "Attempting to use unready controller"@,
                ControlError::JobCreation => "Could not create job"@,
                ControlError::JobDeletion => "Could not delete job"@,
                ControlError::Attach => "Could not attach to process"@,
                ControlError::NoInputStream => "Could not create input stream"@,
                ControlError::NoOutputStream => "Could not create output stream"@,
                ControlError::PodNotFound => "Pod not found after Job creation"@,
            },
    {
        match self {
            ControlError::NotReady => "Attempting to use unready controller".to_owned(),
            ControlError::JobCreation => "Could not create job".to_owned(),
            ControlError::JobDeletion => "Could not delete job".to_owned(),
            ControlError::Attach => "Could not attach to process".to_owned(),
            ControlError::NoInputStream => "Could not create input stream".to_owned(),
            ControlError::NoOutputStream => "Could not create output stream".to_owned(),
            ControlError::PodNotFound => "Pod not found after Job creation".to_owned(),
        }
    }
}

/// A controller as values: its namespace, and, once it is connected, its
/// handles on that namespace.
pub struct ControllerView {
    pub ns: Seq<char>,
    pub handles: Option<Resources>,
}

impl ControllerView {
    pub open spec fn ready(self) -> bool {
        self.handles is Some
    }
}

/// Runs the challenges of the players as jobs of one namespace.
pub struct Controller {
    state: State,
    ns: String,
}

impl View for Controller {
    type V = ControllerView;

    closed spec fn view(&self) -> ControllerView {
        ControllerView {
            ns: self.ns@,
            handles: match self.state {
                State::Ready(r) => Some(r),
                State::Nready => None,
            },
        }
    }
}

impl Controller {
    /// A controller for namespace `ns`, not yet connected.
    pub fn new(ns: &str) -> (c: Controller)
        ensures
            c@ == (ControllerView { ns: ns@, handles: None }),
    {
        Controller { ns: ns.to_owned(), state: State::Nready }
    }

    /// The handles on the namespace, once the controller is connected.
    pub fn get_resources(&self) -> (r: Result<&Resources, ControlError>)
        ensures
            r is Ok <==> self@.ready(),
            r matches Ok(h) ==> self@.handles == Some(*h),
            r matches Err(e) ==> e is NotReady,
    {
        match &self.state {
            State::Ready(resources) => Ok(resources),
            State::Nready => Err(ControlError::NotReady),
        }
    }

    /// Connects the controller through `client`: it takes handles on the pods
    /// and jobs of its namespace.
    pub fn connect(&mut self, client: Client)
        ensures
            final(self)@ == (ControllerView {
                ns: old(self)@.ns,
                handles: Some(namespace_handles(client, old(self)@.ns)),
            }),
    {
        let resources = handles_in(client, self.ns.as_str());
        self.state = State::Ready(resources);
    }
}

/// The label selector of the pods of a player's job.
pub fn pod_selector(user: &User) -> (r: String)
    ensures
        r@ == "job-name="@ + user.id@,
{
    let mut s = "job-name=".to_owned();
    s.append(user.id.as_str());
    s
}

/// The name of the pod of a job, among the names of the pods listed for it:
/// the first one.
pub fn first_pod_name(names: &Vec<String>) -> (r: Result<String, ControlError>)
    ensures
        names@.len() > 0 ==> (r matches Ok(n) && n@ == names@[0]@),
        names@.len() == 0 ==> (r matches Err(e) && e is PodNotFound),
{
    if names.len() > 0 {
        Ok(names[0].clone())
    } else {
        Err(ControlError::PodNotFound)
    }
}

/// What is read of a job's status to know whether its pod runs.
pub struct JobStatusSnapshot {
    pub ready: Option<i32>,
}

/// What is read of a job to know whether its pod runs.
pub struct JobSnapshot {
    pub status: Option<JobStatusSnapshot>,
}

/// Whether a job, if it exists, reports at least one ready pod.
pub fn is_pod_ready(obj: Option<&JobSnapshot>) -> (r: bool)
    ensures
        r == (obj matches Some(job) && job.status matches Some(s) && s.ready matches Some(n) && n > 0),
{
    if let Some(job) = obj {
        if let Some(s) = &job.status {
            if let Some(ready) = &s.ready {
                return *ready > 0;
            }
        }
    }
    false
}

/// The job that runs a challenge: one pod, never restarted, whose single
/// unprivileged container keeps running so that a shell can be attached.
pub struct JobManifest {
    /// The name of the job, of its container, and the value of its labels.
    pub name: String,
    /// The label of the job: key and value.
    pub job_label: (String, String),
    /// The label of the pod template: key and value.
    pub template_label: (String, String),
    pub container_name: String,
    pub image: String,
    pub command: Vec<String>,
    pub privileged: bool,
    pub allow_privilege_escalation: bool,
    pub restart_policy: String,
    pub completions: i32,
    pub parallelism: i32,
}

/// The job named `name` that runs image `image`.
pub fn job_manifest(name: &String, image: &String) -> (j: JobManifest)
    ensures
        j.name@ == name@,
        j.job_label.0@ == "job-name"@,
        j.job_label.1@ == name@,
        j.template_label.0@ == "app.kubernetes.io/job-name"@,
        j.template_label.1@ == name@,
        j.container_name@ == name@,
        j.image@ == image@,
        j.command@.len() == 2,
        j.command@[0]@ == "tail"@,
        j.command@[1]@ == "-f"@,
        !j.privileged,
        !j.allow_privilege_escalation,
        j.restart_policy@ == "Never"@,
        j.completions == 1,
        j.parallelism == 1,
{
    let mut command: Vec<String> = Vec::new();
    command.push("tail".to_owned());
    command.push("-f".to_owned());
    JobManifest {
        name: name.clone(),
        job_label: ("job-name".to_owned(), name.clone()),
        template_label: ("app.kubernetes.io/job-name".to_owned(), name.clone()),
        container_name: name.clone(),
        image: image.clone(),
        command,
        privileged: false,
        allow_privilege_escalation: false,
        restart_policy: "Never".to_owned(),
        completions: 1,
        parallelism: 1,
    }
}

} // verus!
