//! The text of every artifact, with its placeholders.
use vstd::prelude::*;

verus! {

/// Multi-stage build for an ASP.NET service: base runtime with a time zone
/// and health-check tooling, build, publish, final image.
pub const DOTNET_DOCKERFILE: &'static str = r#"# Use an ARG for the Nexus URL and set a default fallback value
ARG SONATYPE_NEXUS_URL=mcr.microsoft.com

FROM ${SONATYPE_NEXUS_URL}/dotnet/aspnet:{{ dotnet_version }} AS base
WORKDIR /app

ENV ASPNETCORE_URLS=http://+:5000

# Set the timezone for the container
ENV TZ=Asia/Dhaka

# Create a symbolic link for the timezone
RUN ln -snf /usr/share/zoneinfo/$TZ /etc/localtime && \
    echo $TZ > /etc/timezone

# For HealthChecks
RUN apt-get update && apt-get install -y curl

FROM ${SONATYPE_NEXUS_URL}/dotnet/sdk:{{ dotnet_version }} AS build
ARG BUILD_CONFIGURATION=Release
WORKDIR /src
COPY ["{{ project_directory }}.csproj", "./"]
RUN dotnet restore "{{ project_directory }}.csproj"
COPY . .
WORKDIR "/src/"
RUN dotnet build "{{ project_directory }}.csproj" -c $BUILD_CONFIGURATION -o /app/build

FROM build AS publish
ARG BUILD_CONFIGURATION=Release
RUN dotnet publish "{{ project_directory }}.csproj" -c $BUILD_CONFIGURATION -o /app/publish /p:UseAppHost=false

FROM base AS final
WORKDIR /app
COPY --from=publish /app/publish .
ENTRYPOINT ["dotnet", "{{ project_directory }}.dll"]
"#;

/// Two-stage build for an Angular application: install and compile with
/// Node, then serve the build output with nginx.
pub const ANGULAR_DOCKERFILE: &'static str = r#"### STAGE 1: Build ###
# Use an official Node runtime as a parent image
FROM node:{{ node_version }}-alpine AS build

# Set the working directory to /app
WORKDIR /app

# Copy package.json and package-lock.json to the container
COPY package*.json ./

# Install dependencies
RUN npm install --legacy-peer-deps

# Copy the rest of the application code to the container
COPY . .

# Build the app
RUN npm run build:prod

### STAGE 2: Run ###
# Use an official Nginx image
FROM nginx:1.24.0-alpine

# Use the generated nginx configuration
COPY nginx.conf /etc/nginx/nginx.conf

# Copy the Angular build output to the nginx web root
COPY --from=build /app/dist/angular-app/browser /usr/share/nginx/html
"#;

/// The line that opens the health-check block of the .NET compose file.
pub const HEALTHCHECK_MARKER: &'static str = "    healthcheck:";

/// Compose file of a .NET service, with its removable health-check block.
pub const DOTNET_COMPOSE: &'static str = r#"services:
  {{ service_name }}:
    image: "{{ image_name }}"
    container_name: "{{ container_name }}"
    restart: unless-stopped
    build:
      context: .
      dockerfile: Dockerfile
    ports:
      - '{{ port }}:5000'
    healthcheck:
      test: curl --fail http://localhost:5000/health || exit 1
      interval: 40s
      timeout: 30s
      retries: 3
      start_period: 60s
    networks:
      - api-network

networks:
  api-network:
    external: true
"#;

/// Compose file of an Angular application served on port 80.
pub const ANGULAR_COMPOSE: &'static str = r#"services:
  {{ service_name }}:
    image: "{{ image_name }}"
    container_name: "{{ container_name }}"
    restart: unless-stopped
    build:
      context: .
      dockerfile: Dockerfile
    ports:
      - '{{ port }}:80'
    volumes:
      - ./node_modules:/app/node_modules
    environment:
      NODE_ENV: production
"#;

/// Pipeline of a .NET service: deploy the sources, start them with one
/// retry, then run the playbook.
pub const DOTNET_CI: &'static str = r#"variables:
  PROJECT_PATH: "{{ project_location }}/{{ project_directory }}"

stages:
  - deploy
  - start
  - ansible

deploy-job:
  stage: deploy
  before_script:
    - mkdir -p $PROJECT_PATH
  script:
    - sudo find $PROJECT_PATH -mindepth 1 -maxdepth 1 ! \( -name "Logs" \) -exec rm -rf {} + # DELETE ALL FILES FIRST EXCEPT LOGS FOLDER
    - sudo cp -r * $PROJECT_PATH # COPY ALL FILES FROM CURRENT GITLAB DIRECTORY TO A SPECIFIC PROJECT PATH
  only:
    - master
  tags:
    - docker

start-job:
  stage: start
  before_script:
    - echo "Logging into Microsoft Docker Registry (Nexus)..."
    - if echo "$SONATYPE_NEXUS_PASSWORD" | docker login $SONATYPE_NEXUS_URL -u $SONATYPE_NEXUS_USERNAME --password-stdin; then
      echo "Successfully Logged into Microsoft Docker Registry";
      else
      echo "Failed to Login to Microsoft Docker Registry";
      exit 1;
      fi

    - set -e  # Exit immediately if a command exits with a non-zero status
    - echo "Ensuring Required Docker Images Exist..."
    - docker pull $SONATYPE_NEXUS_URL/dotnet/aspnet:{{ dotnet_version }} || { echo "Failed to pull aspnet:{{ dotnet_version }} image"; exit 1; }
    - docker pull $SONATYPE_NEXUS_URL/dotnet/sdk:{{ dotnet_version }} || { echo "Failed to pull sdk:{{ dotnet_version }} image"; exit 1; }
    - echo "Docker Images Pulled Successfully"
  script:
    - cd $PROJECT_PATH
    - export SONATYPE_NEXUS_URL=$SONATYPE_NEXUS_URL
    - |
      # Run docker compose up and retry once if it fails
      if ! docker compose up --build -d --remove-orphans; then
        echo "docker compose failed. Retrying with cache clearing..."
        echo "Stopping and removing existing containers..."
        docker compose down || echo "Failed to stop containers, continuing..."
        echo "Rebuilding containers without cache..."
        docker compose build --no-cache
        if ! docker compose up -d --remove-orphans; then
          echo "Retry failed. Exiting..."
          exit 1
        fi
      fi
  only:
    - master
  tags:
    - docker

ansible-job:
  stage: ansible
  before_script:
    # Check if ansible-playbook is accessible, otherwise install it
    - if ! command -v ansible-playbook &> /dev/null; then
        echo "Installing Ansible...";
        pipx install --include-deps ansible;
        pipx ensurepath;
      fi
    - echo "Validating Ansible inventory..."
    - ansible-inventory -i ansible/hosts.yml --list  # Validate inventory
  script:
    - echo "Populating the inventory file"
    - sed -i "s/ANSIBLE_HOST_NAME_PLACEHOLDER/$ANSIBLE_HOST_NAME_DELL_SERVER/" ansible/hosts.yml
    - sed -i "s/ANSIBLE_SSH_PORT_PLACEHOLDER/$ANSIBLE_HOST_PORT_DELL_SERVER/" ansible/hosts.yml
    - sed -i "s/ANSIBLE_HOST_PLACEHOLDER/$ANSIBLE_HOST_DELL_SERVER/" ansible/hosts.yml
    - sed -i "s/ANSIBLE_USER_PLACEHOLDER/$ANSIBLE_USER_DELL_SERVER/" ansible/hosts.yml
    - sed -i "s/ANSIBLE_BECOME_PASS_PLACEHOLDER/$ANSIBLE_BECOME_PASS_DELL_SERVER/" ansible/hosts.yml
    - echo "Running Ansible playbook..."
    - ansible-playbook -i ansible/hosts.yml ansible/ansible-deploy.yml
  variables:
    SONATYPE_NEXUS_URL: $SONATYPE_NEXUS_URL
    SONATYPE_NEXUS_USERNAME: $SONATYPE_NEXUS_USERNAME
    SONATYPE_NEXUS_PASSWORD: $SONATYPE_NEXUS_PASSWORD
  only:
    - master
  tags:
    - docker
"#;

/// Pipeline of an Angular application: deploy the sources, start them with
/// one retry, then run the playbook.
pub const ANGULAR_CI: &'static str = r#"variables:
  PROJECT_PATH: "{{ project_location }}/{{ project_directory }}"

stages:
  - deploy
  - start
  - ansible

deploy-job:
  stage: deploy
  before_script:
    - sudo mkdir -p $PROJECT_PATH
  script:
    - sudo find $PROJECT_PATH -mindepth 1 -maxdepth 1 ! \( -name "node_modules" \) -exec rm -rf {} +
    # COPY FILES FROM CURRENT GITLAB PATH TO PROJECT PATH
    - sudo cp -r * $PROJECT_PATH
  only:
    - master
  tags:
    - docker

start-job:
  stage: start
  script:
    - cd $PROJECT_PATH
    - |
      # Run docker compose up and retry once if it fails
      if ! docker compose up --build -d --remove-orphans; then
        echo "docker compose failed. Retrying with cache clearing..."
        echo "Stopping and removing existing containers..."
        docker compose down || echo "Failed to stop containers, continuing..."
        echo "Rebuilding containers without cache..."
        docker compose build --no-cache
        if ! docker compose up -d --remove-orphans; then
          echo "Retry failed. Exiting..."
          exit 1
        fi
      fi
  only:
    - master
  tags:
    - docker

ansible-job:
  stage: ansible
  before_script:
    # Check if ansible-playbook is accessible, otherwise install it
    - if ! command -v ansible-playbook &> /dev/null; then
        echo "Installing Ansible...";
        pipx install --include-deps ansible;
        pipx ensurepath;
      fi
    - echo "Validating Ansible inventory..."
    - ansible-inventory -i ansible/hosts.yml --list  # Validate inventory
  script:
    - echo "Populating the inventory file"
    - sed -i "s/ANSIBLE_HOST_NAME_PLACEHOLDER/$ANSIBLE_HOST_NAME_DELL_SERVER/" ansible/hosts.yml
    - sed -i "s/ANSIBLE_SSH_PORT_PLACEHOLDER/$ANSIBLE_HOST_PORT_DELL_SERVER/" ansible/hosts.yml
    - sed -i "s/ANSIBLE_HOST_PLACEHOLDER/$ANSIBLE_HOST_DELL_SERVER/" ansible/hosts.yml
    - sed -i "s/ANSIBLE_USER_PLACEHOLDER/$ANSIBLE_USER_DELL_SERVER/" ansible/hosts.yml
    - sed -i "s/ANSIBLE_BECOME_PASS_PLACEHOLDER/$ANSIBLE_BECOME_PASS_DELL_SERVER/" ansible/hosts.yml
    - echo "Running Ansible playbook..."
    - ansible-playbook -i ansible/hosts.yml ansible/ansible-deploy.yml
  only:
    - master
  tags:
    - docker
"#;

/// Inventory of the deployment target. Its markers are filled in by the
/// pipeline's `ansible` stage from CI variables.
pub const INVENTORY: &'static str = r#"target_servers:
  hosts:
    ANSIBLE_HOST_NAME_PLACEHOLDER:
      ansible_host: "ANSIBLE_HOST_PLACEHOLDER"
      ansible_user: "ANSIBLE_USER_PLACEHOLDER"
      ansible_ssh_port: ANSIBLE_SSH_PORT_PLACEHOLDER
      ansible_become_user: root
      ansible_become_pass: "ANSIBLE_BECOME_PASS_PLACEHOLDER"
      ansible_ssh_common_args: '-o StrictHostKeyChecking=no'
"#;

/// Playbook that replaces the deployment directory on the target, copies the
/// project into it and starts it with one retry.
pub const PLAYBOOK: &'static str = r#"---
- name: Deploy files and start docker compose
  hosts: target_servers
  become: yes
  tasks:
    - name: Remove the existing remote directory
      ansible.builtin.file:
        path: "{{ project_location }}/{{ project_directory }}"
        state: absent

    - name: Ensure the destination directory exists on the remote server
      ansible.builtin.file:
        path: "{{ project_location }}/{{ project_directory }}"
        state: directory
        mode: '0755'

    - name: Copy files to the remote server
      ansible.builtin.copy:
        src: "{{ project_location }}/{{ project_directory }}"
        dest: "{{ project_location }}"
        mode: '0755'

    - name: Run docker compose to start the services
      ansible.builtin.shell:
        cmd: |
          echo "Current Directory:"
          pwd
          # Run docker compose up and retry once if it fails
          if ! docker compose up --build -d --remove-orphans; then
            echo "docker compose failed. Retrying with cache clearing..."
            echo "Stopping and removing existing containers..."
            docker compose down || echo "Failed to stop containers, continuing..."
            echo "Rebuilding containers without cache..."
            docker compose build --no-cache
            if ! docker compose up -d --remove-orphans; then
              echo "Retry failed. Exiting..."
              exit 1
            fi
          fi
        chdir: "{{ project_location }}/{{ project_directory }}"
      register: docker_compose_result
      ignore_errors: false

    - name: Display docker compose result
      debug:
        var: docker_compose_result.stdout
"#;

/// Static nginx configuration for a single-page application: unknown paths
/// fall back to `index.html`, server errors map to `50x.html`.
pub const NGINX_CONF: &'static str = r#"events {}

http {
    include       /etc/nginx/mime.types;
    default_type  application/octet-stream;

    server {
        listen       80;

        root   /usr/share/nginx/html;
        index  index.html;

        location / {
            try_files $uri $uri/ /index.html;
        }

        error_page   500 502 503 504  /50x.html;
        location = /50x.html {
            root   /usr/share/nginx/html;
        }
    }
}
"#;

} // verus!
